use std::cell::RefCell;
use std::rc::Rc;

use embedded_hal::i2c::{Error, ErrorKind, ErrorType, I2c, NoAcknowledgeSource, Operation};
use is31fl3728::{
    AudioInputGain, DriverError, LightingIntensity, MatrixDimensions, Pixel, IS31FL3728,
};

/// What the mock bus reports; its kind is chosen by the test.
#[derive(Debug)]
struct Fault(ErrorKind);

impl Error for Fault {
    fn kind(&self) -> ErrorKind {
        self.0
    }
}

/// A bus that records every write and refuses the ones it is told to.
struct Recorder {
    writes: Rc<RefCell<Vec<(u8, Vec<u8>)>>>,
    refuse: Vec<usize>,
    kind: ErrorKind,
}

impl ErrorType for Recorder {
    type Error = Fault;
}

impl I2c for Recorder {
    fn transaction(
        &mut self,
        address: u8,
        operations: &mut [Operation<'_>],
    ) -> Result<(), Self::Error> {
        for operation in operations.iter() {
            if let Operation::Write(bytes) = operation {
                let index = self.writes.borrow().len();
                self.writes.borrow_mut().push((address, bytes.to_vec()));
                if self.refuse.contains(&index) {
                    return Err(Fault(self.kind));
                }
            }
        }
        Ok(())
    }
}

type Log = Rc<RefCell<Vec<(u8, Vec<u8>)>>>;

fn recorder(refuse: &[usize]) -> (Recorder, Log) {
    let writes: Log = Rc::new(RefCell::new(Vec::new()));
    let bus = Recorder { writes: writes.clone(), refuse: refuse.to_vec(), kind: ErrorKind::Overrun };
    (bus, writes)
}

fn driver(dimensions: MatrixDimensions, audio: bool, refuse: &[usize]) -> (IS31FL3728<Recorder>, Log) {
    let (bus, writes) = recorder(refuse);
    let driver = match IS31FL3728::new(bus, 0x60, dimensions, audio) {
        Ok(driver) => driver,
        Err(_) => panic!("the configuration write was refused"),
    };
    (driver, writes)
}

/// The payloads written since the driver was made, the bus address checked.
fn payloads(writes: &Log, skip: usize) -> Vec<Vec<u8>> {
    writes
        .borrow()
        .iter()
        .skip(skip)
        .map(|(address, bytes)| {
            assert_eq!(*address, 0x60);
            bytes.clone()
        })
        .collect()
}

const DIAMOND: [u8; 8] = [
    0,
    0b01100110,
    0b11111111,
    0b11111111,
    0b11111111,
    0b01111110,
    0b00111100,
    0b00011000,
];

#[test]
fn new_writes_the_configuration() {
    let (_, writes) = driver(MatrixDimensions::M7x9, true, &[]);
    assert_eq!(payloads(&writes, 0), vec![vec![0x00, 0b101]]);
    let (_, writes) = driver(MatrixDimensions::M5x11, false, &[]);
    assert_eq!(payloads(&writes, 0), vec![vec![0x00, 0b011]]);
    let (_, writes) = driver(MatrixDimensions::M8x8, true, &[]);
    assert_eq!(payloads(&writes, 0), vec![vec![0x00, 0b100]]);
}

#[test]
fn new_uses_the_given_bus_address() {
    let (bus, writes) = recorder(&[]);
    assert!(IS31FL3728::new(bus, 0x63, MatrixDimensions::M6x10, false).is_ok());
    assert_eq!(*writes.borrow(), vec![(0x63u8, vec![0x00u8, 0b010])]);
}

#[test]
fn new_writes_nothing_for_the_default_configuration() {
    let (mut d, writes) = driver(MatrixDimensions::M8x8, false, &[]);
    assert!(writes.borrow().is_empty());
    assert!(d.update().is_ok());
    assert_eq!(payloads(&writes, 0), vec![vec![0x0C, 0x00]]);
}

#[test]
fn new_returns_the_refusal() {
    let (bus, writes) = recorder(&[0]);
    let made = IS31FL3728::new(bus, 0x60, MatrixDimensions::M7x9, false);
    assert!(matches!(made, Err(DriverError::I2C(ErrorKind::Overrun))));
    assert_eq!(writes.borrow().len(), 1);
}

#[test]
fn bus_error_is_reported_by_its_kind() {
    let writes: Log = Rc::new(RefCell::new(Vec::new()));
    let bus = Recorder {
        writes: writes.clone(),
        refuse: vec![1],
        kind: ErrorKind::NoAcknowledge(NoAcknowledgeSource::Address),
    };
    let mut d = match IS31FL3728::new(bus, 0x60, MatrixDimensions::M7x9, false) {
        Ok(d) => d,
        Err(_) => panic!("the configuration write was refused"),
    };
    assert!(matches!(
        d.update(),
        Err(DriverError::I2C(ErrorKind::NoAcknowledge(NoAcknowledgeSource::Address)))
    ));
    assert!(d.update().is_ok());
}

#[test]
fn counts_follow_the_geometry() {
    let table = [
        (MatrixDimensions::M8x8, 8, 8),
        (MatrixDimensions::M7x9, 7, 9),
        (MatrixDimensions::M6x10, 6, 10),
        (MatrixDimensions::M5x11, 5, 11),
    ];
    for (dimensions, rows, columns) in table {
        let (d, _) = driver(dimensions, false, &[]);
        assert_eq!(d.rows_count(), rows);
        assert_eq!(d.columns_count(), columns);
        assert_eq!(d.size(), (columns as u32, rows as u32));
    }
}

#[test]
fn update_writes_the_update_register() {
    let (mut d, writes) = driver(MatrixDimensions::M7x9, false, &[]);
    assert!(d.update().is_ok());
    assert_eq!(payloads(&writes, 1), vec![vec![0x0C, 0x00]]);
}

#[test]
fn send_column_writes_column_and_byte() {
    let (mut d, writes) = driver(MatrixDimensions::M7x9, false, &[]);
    assert!(d.send_column(1, 0xA5).is_ok());
    assert!(d.send_column(9, 0x5A).is_ok());
    assert!(d.send_column(9, 0x5A).is_ok());
    assert_eq!(payloads(&writes, 1), vec![vec![1, 0xA5], vec![9, 0x5A], vec![9, 0x5A]]);
}

#[test]
fn send_column_beyond_the_matrix_is_refused() {
    let table = [
        (MatrixDimensions::M8x8, 8u8),
        (MatrixDimensions::M7x9, 9),
        (MatrixDimensions::M6x10, 10),
        (MatrixDimensions::M5x11, 11),
    ];
    for (dimensions, columns) in table {
        let (mut d, writes) = driver(dimensions, true, &[]);
        for n in [columns + 1, 12, 0x0C, 0x0D, 255] {
            match d.send_column(n, 0xFF) {
                Err(DriverError::InvalidColumnNumber(actual, max)) => {
                    assert_eq!(actual, n);
                    assert_eq!(max, columns);
                }
                _ => panic!("column {} was not refused", n),
            }
        }
        assert_eq!(writes.borrow().len(), 1);
        assert!(d.send_column(columns, 0xFF).is_ok());
        assert_eq!(writes.borrow().len(), 2);
    }
}

#[test]
fn send_column_zero_goes_to_the_bus() {
    let (mut d, writes) = driver(MatrixDimensions::M7x9, false, &[]);
    assert!(d.send_column(0, 0x11).is_ok());
    assert_eq!(payloads(&writes, 1), vec![vec![0, 0x11]]);
}

#[test]
fn send_column_returns_the_refusal() {
    let (mut d, writes) = driver(MatrixDimensions::M7x9, false, &[1]);
    assert!(matches!(d.send_column(2, 7), Err(DriverError::I2C(ErrorKind::Overrun))));
    assert_eq!(payloads(&writes, 1), vec![vec![2, 7]]);
}

#[test]
fn draw_column_sends_and_updates() {
    let (mut d, writes) = driver(MatrixDimensions::M7x9, false, &[]);
    assert!(d.draw_column(3, 0x42).is_ok());
    assert_eq!(payloads(&writes, 1), vec![vec![3, 0x42], vec![0x0C, 0]]);
}

#[test]
fn draw_column_refused_writes_nothing() {
    let (mut d, writes) = driver(MatrixDimensions::M7x9, false, &[]);
    assert!(matches!(d.draw_column(10, 0x42), Err(DriverError::InvalidColumnNumber(10, 9))));
    assert_eq!(writes.borrow().len(), 1);
}

#[test]
fn draw_column_stops_when_the_send_fails() {
    let (mut d, writes) = driver(MatrixDimensions::M7x9, false, &[1]);
    assert!(matches!(d.draw_column(3, 0x42), Err(DriverError::I2C(ErrorKind::Overrun))));
    assert_eq!(payloads(&writes, 1), vec![vec![3, 0x42]]);
}

#[test]
fn draw_sends_each_column_then_updates() {
    let (mut d, writes) = driver(MatrixDimensions::M7x9, false, &[]);
    assert!(d.draw(&[9, 8, 7]).is_ok());
    assert_eq!(payloads(&writes, 1), vec![vec![1, 9], vec![2, 8], vec![3, 7], vec![0x0C, 0]]);
}

#[test]
fn draw_of_nothing_only_updates() {
    let (mut d, writes) = driver(MatrixDimensions::M7x9, false, &[]);
    assert!(d.draw(&[]).is_ok());
    assert_eq!(payloads(&writes, 1), vec![vec![0x0C, 0]]);
}

#[test]
fn draw_wider_than_the_matrix_stops_without_update() {
    let (mut d, writes) = driver(MatrixDimensions::M8x8, true, &[]);
    let picture = [1u8, 2, 3, 4, 5, 6, 7, 8, 9, 10];
    assert!(matches!(d.draw(&picture), Err(DriverError::InvalidColumnNumber(9, 8))));
    assert_eq!(
        payloads(&writes, 1),
        vec![
            vec![1, 1],
            vec![2, 2],
            vec![3, 3],
            vec![4, 4],
            vec![5, 5],
            vec![6, 6],
            vec![7, 7],
            vec![8, 8]
        ]
    );
}

#[test]
fn draw_of_a_very_long_picture_is_refused_at_the_first_column_too_many() {
    let (mut d, writes) = driver(MatrixDimensions::M5x11, false, &[]);
    let picture = [0x55u8; 300];
    assert!(matches!(d.draw(&picture), Err(DriverError::InvalidColumnNumber(12, 11))));
    assert_eq!(writes.borrow().len(), 12);
}

#[test]
fn draw_stops_at_the_first_refusal() {
    let (mut d, writes) = driver(MatrixDimensions::M7x9, false, &[2]);
    assert!(matches!(d.draw(&[9, 8, 7]), Err(DriverError::I2C(ErrorKind::Overrun))));
    assert_eq!(payloads(&writes, 1), vec![vec![1, 9], vec![2, 8]]);
}

#[test]
fn draw_returns_a_refused_update() {
    let (mut d, writes) = driver(MatrixDimensions::M7x9, false, &[3]);
    assert!(matches!(d.draw(&[9, 8]), Err(DriverError::I2C(ErrorKind::Overrun))));
    assert_eq!(payloads(&writes, 1), vec![vec![1, 9], vec![2, 8], vec![0x0C, 0]]);
}

#[test]
fn set_intensity_twice_writes_once() {
    let (mut d, writes) = driver(MatrixDimensions::M7x9, false, &[]);
    assert!(d.set_intensity(LightingIntensity::C10mA).is_ok());
    assert!(d.set_intensity(LightingIntensity::C10mA).is_ok());
    assert_eq!(payloads(&writes, 1), vec![vec![0x0D, 0b1001]]);
    assert!(d.set_intensity(LightingIntensity::C75mA).is_ok());
    assert_eq!(payloads(&writes, 1), vec![vec![0x0D, 0b1001], vec![0x0D, 0b0111]]);
}

#[test]
fn set_intensity_to_the_default_writes_nothing() {
    let (mut d, writes) = driver(MatrixDimensions::M7x9, false, &[]);
    assert!(d.set_intensity(LightingIntensity::C40mA).is_ok());
    assert!(d.set_audio_input_gain(AudioInputGain::G00dB).is_ok());
    assert_eq!(writes.borrow().len(), 1);
}

#[test]
fn set_intensity_keeps_the_gain() {
    let (mut d, writes) = driver(MatrixDimensions::M7x9, false, &[]);
    assert!(d.set_audio_input_gain(AudioInputGain::G12dB).is_ok());
    assert!(d.set_intensity(LightingIntensity::C05mA).is_ok());
    assert!(d.set_intensity(LightingIntensity::C50mA).is_ok());
    assert_eq!(
        payloads(&writes, 1),
        vec![vec![0x0D, 0x40], vec![0x0D, 0x48], vec![0x0D, 0x42]]
    );
}

#[test]
fn set_gain_keeps_the_intensity() {
    let (mut d, writes) = driver(MatrixDimensions::M7x9, false, &[]);
    assert!(d.set_intensity(LightingIntensity::C35mA).is_ok());
    assert!(d.set_audio_input_gain(AudioInputGain::G18dB).is_ok());
    assert!(d.set_audio_input_gain(AudioInputGain::G18dB).is_ok());
    assert!(d.set_audio_input_gain(AudioInputGain::GMinus6dB).is_ok());
    assert!(d.set_audio_input_gain(AudioInputGain::G03dB).is_ok());
    assert_eq!(
        payloads(&writes, 1),
        vec![vec![0x0D, 0x0E], vec![0x0D, 0x6E], vec![0x0D, 0x7E], vec![0x0D, 0x1E]]
    );
}

#[test]
fn refused_intensity_is_not_kept() {
    let (mut d, writes) = driver(MatrixDimensions::M7x9, false, &[1]);
    assert!(matches!(
        d.set_intensity(LightingIntensity::C10mA),
        Err(DriverError::I2C(ErrorKind::Overrun))
    ));
    assert!(d.set_intensity(LightingIntensity::C10mA).is_ok());
    assert!(d.set_intensity(LightingIntensity::C10mA).is_ok());
    assert_eq!(payloads(&writes, 1), vec![vec![0x0D, 0b1001], vec![0x0D, 0b1001]]);
}

#[test]
fn audio_eq_always_writes() {
    let (mut d, writes) = driver(MatrixDimensions::M7x9, true, &[]);
    assert!(d.audio_eq_enable().is_ok());
    assert!(d.audio_eq_enable().is_ok());
    assert!(d.audio_eq_disable().is_ok());
    assert!(d.audio_eq_disable().is_ok());
    assert_eq!(
        payloads(&writes, 1),
        vec![vec![0x0F, 0x40], vec![0x0F, 0x40], vec![0x0F, 0x00], vec![0x0F, 0x00]]
    );
}

#[test]
fn draw_bitmap_needs_eight_by_eight() {
    for dimensions in [MatrixDimensions::M7x9, MatrixDimensions::M6x10, MatrixDimensions::M5x11] {
        let (mut d, writes) = driver(dimensions, false, &[]);
        assert!(matches!(d.draw_bitmap(&DIAMOND), Err(DriverError::IncorrectMatrixSize)));
        assert_eq!(writes.borrow().len(), 1);
    }
}

#[test]
fn draw_bitmap_diamond() {
    let (mut d, writes) = driver(MatrixDimensions::M8x8, true, &[]);
    assert!(d.draw_bitmap(&DIAMOND).is_ok());
    assert_eq!(
        payloads(&writes, 1),
        vec![
            vec![1, 0x38],
            vec![2, 0x7C],
            vec![3, 0x7E],
            vec![4, 0x3F],
            vec![5, 0x3F],
            vec![6, 0x7E],
            vec![7, 0x7C],
            vec![8, 0x38],
            vec![0x0C, 0x00]
        ]
    );
}

#[test]
fn draw_bitmap_corner_pixel() {
    let (mut d, writes) = driver(MatrixDimensions::M8x8, true, &[]);
    assert!(d.draw_bitmap(&[0, 0, 0, 0, 0, 0, 0, 0b0100_0000]).is_ok());
    let sent = payloads(&writes, 1);
    assert_eq!(sent.len(), 9);
    assert_eq!(sent[0], vec![1, 0]);
    assert_eq!(sent[1], vec![2, 0b0000_0001]);
    assert_eq!(sent[8], vec![0x0C, 0]);
}

#[test]
fn draw_bitmap_stops_at_the_first_refusal() {
    let (mut d, writes) = driver(MatrixDimensions::M8x8, true, &[3]);
    assert!(matches!(d.draw_bitmap(&DIAMOND), Err(DriverError::I2C(ErrorKind::Overrun))));
    assert_eq!(payloads(&writes, 1), vec![vec![1, 0x38], vec![2, 0x7C], vec![3, 0x7E]]);
}

#[test]
fn clear_and_fill_write_every_column_and_update() {
    let table = [
        (MatrixDimensions::M8x8, 8u8),
        (MatrixDimensions::M7x9, 9),
        (MatrixDimensions::M6x10, 10),
        (MatrixDimensions::M5x11, 11),
    ];
    for (dimensions, columns) in table {
        let (mut d, writes) = driver(dimensions, true, &[]);
        assert!(d.clear().is_ok());
        let mut expected: Vec<Vec<u8>> = (1..=columns).map(|c| vec![c, 0x00]).collect();
        expected.push(vec![0x0C, 0x00]);
        assert_eq!(payloads(&writes, 1), expected);
        assert_eq!(writes.borrow().len(), 1 + columns as usize + 1);
        assert!(d.fill().is_ok());
        let mut expected: Vec<Vec<u8>> = (1..=columns).map(|c| vec![c, 0xFF]).collect();
        expected.push(vec![0x0C, 0x00]);
        assert_eq!(payloads(&writes, 2 + columns as usize), expected);
    }
}

#[test]
fn clear_stops_at_the_first_refusal() {
    let (mut d, writes) = driver(MatrixDimensions::M7x9, false, &[2]);
    assert!(matches!(d.clear(), Err(DriverError::I2C(ErrorKind::Overrun))));
    assert_eq!(payloads(&writes, 1), vec![vec![1, 0], vec![2, 0]]);
}

#[test]
fn shutdown_and_on_always_write_the_configuration() {
    let (mut d, writes) = driver(MatrixDimensions::M6x10, true, &[]);
    assert!(d.software_shutdown().is_ok());
    assert!(d.software_shutdown().is_ok());
    assert!(d.software_on().is_ok());
    assert!(d.software_on().is_ok());
    assert!(d.software_shutdown().is_ok());
    assert_eq!(
        payloads(&writes, 0),
        vec![
            vec![0x00, 0b0000_0110],
            vec![0x00, 0b1000_0110],
            vec![0x00, 0b1000_0110],
            vec![0x00, 0b0000_0110],
            vec![0x00, 0b0000_0110],
            vec![0x00, 0b1000_0110]
        ]
    );
}

#[test]
fn refused_shutdown_is_returned() {
    let (mut d, writes) = driver(MatrixDimensions::M6x10, false, &[1]);
    assert!(matches!(d.software_shutdown(), Err(DriverError::I2C(ErrorKind::Overrun))));
    assert!(d.software_on().is_ok());
    assert_eq!(payloads(&writes, 1), vec![vec![0x00, 0x82], vec![0x00, 0x02]]);
}

#[test]
fn draw_pixels_sends_the_rasterised_columns() {
    let (mut d, writes) = driver(MatrixDimensions::M7x9, false, &[]);
    let pixels = [
        Pixel { x: 0, y: 0, on: true },
        Pixel { x: 0, y: 6, on: true },
        Pixel { x: 0, y: 7, on: true },
        Pixel { x: 8, y: 1, on: true },
        Pixel { x: 9, y: 1, on: true },
        Pixel { x: 4, y: 2, on: false },
        Pixel { x: -3, y: 2, on: true },
    ];
    assert!(d.draw_pixels(&pixels).is_ok());
    assert_eq!(
        payloads(&writes, 1),
        vec![
            vec![1, 0x82],
            vec![2, 0],
            vec![3, 0],
            vec![4, 0],
            vec![5, 0],
            vec![6, 0],
            vec![7, 0],
            vec![8, 0],
            vec![9, 0x40],
            vec![0x0C, 0]
        ]
    );
}
