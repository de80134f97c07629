//! The driver: the registers it keeps, and the writes that each operation
//! hands to the bus.

use embedded_hal::i2c::ErrorKind;
use embedded_hal::i2c::I2c;
use vstd::prelude::*;

use crate::bitmap::{transpose_column, transposed};
use crate::error::DriverError;
use crate::levels::{AudioInputGain, LightingIntensity, MatrixDimensions};
use crate::raster::{lemma_rasterized_len, rasterize, rasterized, Pixel};
use crate::registers::{
    gain_bits,
    initial_configuration,
    intensity_bits,
    with_gain,
    with_intensity,
    lemma_gain_keeps_intensity,
    lemma_intensity_and_gain,
    lemma_intensity_twice,
    lemma_intensity_keeps_gain,
    lemma_shutdown_bit,
    AUDIO_EQ_ADDRESS,
    AUDIO_EQ_ENABLE_BIT,
    CONFIGURATION_ADDRESS,
    DEFAULT_CONFIGURATION_REGISTER,
    DEFAULT_LIGHTING_EFFECT_REGISTER,
    LIGHTING_EFFECT_ADDRESS,
    SHUTDOWN_BIT,
    UPDATE_COLUMN_ADDRESS,
};
use crate::transport::{
    accepted_so_far,
    bus_write,
    cached_write,
    last_accepted,
    lemma_all_done,
    lemma_last_accepted_push,
    lemma_nothing_yet,
    lemma_one_more,
    performed,
    wrote_one,
    Frame,
    Transfer,
};

verus! {

/// What a driver was made with, and the two registers it keeps.
pub struct Settings {
    /// The chip's bus address.
    pub address: u8,
    /// The geometry of the matrix.
    pub dimensions: MatrixDimensions,
    /// Whether the chip's audio input is on.
    pub audio_input_enabled: bool,
    /// The configuration register as the driver last knew it.
    pub configuration_register: u8,
    /// The lighting-effects register as the driver last knew it.
    pub lighting_effects_register: u8,
}

/// The write that shows the columns sent before.
pub open spec fn update_frame() -> Frame {
    (UPDATE_COLUMN_ADDRESS, 0u8)
}

/// One write for each value: the first to column 1, the next to column 2,
/// and so on.
pub open spec fn column_frames(values: Seq<u8>) -> Seq<Frame> {
    Seq::new(values.len(), |i: int| ((i + 1) as u8, values[i]))
}

/// The writes that show a picture given by columns: its columns, then the
/// update.
pub open spec fn picture_plan(values: Seq<u8>) -> Seq<Frame> {
    column_frames(values).push(update_frame())
}

/// `columns` columns of the same value.
pub open spec fn uniform(columns: u8, value: u8) -> Seq<u8> {
    Seq::new(columns as nat, |i: int| value)
}

/// The driver of one chip. It owns the bus handle that it was made with.
pub struct IS31FL3728<I2C> {
    i2c: I2C,
    address: u8,
    dimensions: MatrixDimensions,
    audio_input_enabled: bool,
    rows_count: u8,
    columns_count: u8,
    configuration_register: u8,
    lighting_effects_register: u8,
    log: Ghost<Seq<Transfer>>,
}

impl<I2C> IS31FL3728<I2C> {
    /// What the driver was made with, and the registers it keeps.
    pub closed spec fn settings(&self) -> Settings {
        Settings {
            address: self.address,
            dimensions: self.dimensions,
            audio_input_enabled: self.audio_input_enabled,
            configuration_register: self.configuration_register,
            lighting_effects_register: self.lighting_effects_register,
        }
    }

    /// Every write that the driver has handed to its bus, oldest first.
    pub closed spec fn log(&self) -> Seq<Transfer> {
        self.log@
    }

    /// The row and column counts agree with the geometry, the
    /// lighting-effects register is what the bus last accepted for it, and
    /// every write went to the driver's bus address.
    spec fn steady(&self) -> bool {
        &&& self.rows_count == self.dimensions.rows()
        &&& self.columns_count == self.dimensions.columns()
        &&& self.lighting_effects_register & 0x80 == 0
        &&& self.lighting_effects_register == last_accepted(
            self.log@,
            LIGHTING_EFFECT_ADDRESS,
            DEFAULT_LIGHTING_EFFECT_REGISTER,
        )
        &&& forall|i: int| 0 <= i < self.log@.len() ==> (#[trigger] self.log@[i]).address == self.address
    }

    /// The configuration register is what the bus last accepted for it, or
    /// what the chip starts with if it accepted nothing. Every operation keeps
    /// this but a column write to index 0, which goes to the configuration
    /// register's address; switching the matrix on or off restores it.
    pub open spec fn configuration_in_step(&self) -> bool {
        self.settings().configuration_register == last_accepted(
            self.log(),
            CONFIGURATION_ADDRESS,
            DEFAULT_CONFIGURATION_REGISTER,
        )
    }

    /// The driver's invariant: it is steady, and but for the shutdown bit the
    /// configuration register is the one it was made for.
    pub closed spec fn wf(&self) -> bool {
        &&& self.steady()
        &&& self.configuration_register & 0x7F == initial_configuration(
            self.dimensions,
            self.audio_input_enabled,
        )
    }

    /// What the invariant says of the settings and the log.
    pub proof fn lemma_invariant(&self)
        requires
            self.wf(),
        ensures
            self.settings().lighting_effects_register & 0x80 == 0,
            self.settings().lighting_effects_register == last_accepted(
                self.log(),
                LIGHTING_EFFECT_ADDRESS,
                DEFAULT_LIGHTING_EFFECT_REGISTER,
            ),
            self.settings().configuration_register & 0x7F == initial_configuration(
                self.settings().dimensions,
                self.settings().audio_input_enabled,
            ),
            forall|i: int|
                0 <= i < self.log().len() ==> (#[trigger] self.log()[i]).address
                    == self.settings().address,
    {
    }

    /// `after` is this driver after `set_intensity(level)` has returned
    /// `result`.
    pub open spec fn set_intensity_to(
        &self,
        after: &Self,
        level: LightingIntensity,
        result: Result<(), DriverError<ErrorKind>>,
    ) -> bool {
        &&& after.settings() == (Settings {
            lighting_effects_register: after.settings().lighting_effects_register,
            ..self.settings()
        })
        &&& cached_write(
            self.settings().lighting_effects_register,
            with_intensity(self.settings().lighting_effects_register, level),
            LIGHTING_EFFECT_ADDRESS,
            self.log(),
            after.log(),
            after.settings().lighting_effects_register,
            result,
        )
    }

    /// `after` is this driver after `set_audio_input_gain(gain)` has returned
    /// `result`.
    pub open spec fn set_gain_to(
        &self,
        after: &Self,
        gain: AudioInputGain,
        result: Result<(), DriverError<ErrorKind>>,
    ) -> bool {
        &&& after.settings() == (Settings {
            lighting_effects_register: after.settings().lighting_effects_register,
            ..self.settings()
        })
        &&& cached_write(
            self.settings().lighting_effects_register,
            with_gain(self.settings().lighting_effects_register, gain),
            LIGHTING_EFFECT_ADDRESS,
            self.log(),
            after.log(),
            after.settings().lighting_effects_register,
            result,
        )
    }

    /// The number of rows of the matrix.
    pub fn rows_count(&self) -> (rows: u8)
        requires
            self.wf(),
        ensures
            rows == self.settings().dimensions.rows(),
    {
        self.rows_count
    }

    /// The number of columns of the matrix.
    pub fn columns_count(&self) -> (columns: u8)
        requires
            self.wf(),
        ensures
            columns == self.settings().dimensions.columns(),
    {
        self.columns_count
    }

    /// The size of the drawing surface: its width, the number of columns, then
    /// its height, the number of rows.
    pub fn size(&self) -> (size: (u32, u32))
        requires
            self.wf(),
        ensures
            size.0 == self.settings().dimensions.columns(),
            size.1 == self.settings().dimensions.rows(),
    {
        (self.columns_count as u32, self.rows_count as u32)
    }
}

/// Setting an intensity twice in a row: if the first call succeeds, the
/// second writes nothing and succeeds, and the register stays. The first
/// call writes once, unless the register held that intensity already.
pub proof fn lemma_same_intensity_again<I2C>(
    before: &IS31FL3728<I2C>,
    between: &IS31FL3728<I2C>,
    after: &IS31FL3728<I2C>,
    level: LightingIntensity,
    first: Result<(), DriverError<ErrorKind>>,
    second: Result<(), DriverError<ErrorKind>>,
)
    requires
        before.set_intensity_to(between, level, first),
        first is Ok,
        between.set_intensity_to(after, level, second),
    ensures
        second is Ok,
        after.log() == between.log(),
        after.settings() == between.settings(),
        between.log().len() == before.log().len() + (if with_intensity(
            before.settings().lighting_effects_register,
            level,
        ) == before.settings().lighting_effects_register {
            0int
        } else {
            1int
        }),
{
    lemma_intensity_twice(before.settings().lighting_effects_register, level);
}

/// A different intensity keeps the gain bits that were set before, and is
/// written unless it is refused.
pub proof fn lemma_intensity_keeps_gain_set<I2C>(
    before: &IS31FL3728<I2C>,
    after: &IS31FL3728<I2C>,
    level: LightingIntensity,
    result: Result<(), DriverError<ErrorKind>>,
)
    requires
        before.set_intensity_to(after, level, result),
    ensures
        gain_bits(after.settings().lighting_effects_register) == gain_bits(
            before.settings().lighting_effects_register,
        ),
        result is Ok ==> intensity_bits(after.settings().lighting_effects_register)
            == level.code(),
{
    lemma_intensity_keeps_gain(before.settings().lighting_effects_register, level);
}

/// An intensity and then a gain, both set with success: the register then
/// holds the gain's code or'ed with the level's.
pub proof fn lemma_intensity_then_gain<I2C>(
    before: &IS31FL3728<I2C>,
    between: &IS31FL3728<I2C>,
    after: &IS31FL3728<I2C>,
    level: LightingIntensity,
    gain: AudioInputGain,
    first: Result<(), DriverError<ErrorKind>>,
    second: Result<(), DriverError<ErrorKind>>,
)
    requires
        before.wf(),
        before.set_intensity_to(between, level, first),
        first is Ok,
        between.set_gain_to(after, gain, second),
        second is Ok,
    ensures
        after.settings().lighting_effects_register == gain.code() | level.code(),
{
    before.lemma_invariant();
    lemma_intensity_and_gain(before.settings().lighting_effects_register, level, gain);
}

/// A gain and then an intensity, both set with success: the register then
/// holds the gain's code or'ed with the level's.
pub proof fn lemma_gain_then_intensity<I2C>(
    before: &IS31FL3728<I2C>,
    between: &IS31FL3728<I2C>,
    after: &IS31FL3728<I2C>,
    level: LightingIntensity,
    gain: AudioInputGain,
    first: Result<(), DriverError<ErrorKind>>,
    second: Result<(), DriverError<ErrorKind>>,
)
    requires
        before.wf(),
        before.set_gain_to(between, gain, first),
        first is Ok,
        between.set_intensity_to(after, level, second),
        second is Ok,
    ensures
        after.settings().lighting_effects_register == gain.code() | level.code(),
{
    before.lemma_invariant();
    lemma_intensity_and_gain(before.settings().lighting_effects_register, level, gain);
}

impl<I2C: I2c> IS31FL3728<I2C> {
    /// Makes a driver for the chip at `address` and writes the chip's
    /// configuration, unless that is the one the chip starts with. A refused
    /// write is returned as the error, and the bus handle is gone with it.
    pub fn new(
        i2c: I2C,
        address: u8,
        matrix_dimensions: MatrixDimensions,
        audio_input_enabled: bool,
    ) -> (r: Result<IS31FL3728<I2C>, DriverError<ErrorKind>>)
        ensures
            match r {
                Ok(driver) => {
                    &&& driver.wf()
                    &&& driver.configuration_in_step()
                    &&& driver.settings() == (Settings {
                        address,
                        dimensions: matrix_dimensions,
                        audio_input_enabled,
                        configuration_register: initial_configuration(
                            matrix_dimensions,
                            audio_input_enabled,
                        ),
                        lighting_effects_register: DEFAULT_LIGHTING_EFFECT_REGISTER,
                    })
                    &&& driver.log() == if initial_configuration(
                        matrix_dimensions,
                        audio_input_enabled,
                    ) == DEFAULT_CONFIGURATION_REGISTER {
                        Seq::<Transfer>::empty()
                    } else {
                        seq![
                            (Transfer {
                                address,
                                register: CONFIGURATION_ADDRESS,
                                value: initial_configuration(matrix_dimensions, audio_input_enabled),
                                failure: None,
                            }),
                        ]
                    }
                },
                Err(e) => {
                    &&& e is I2C
                    &&& initial_configuration(matrix_dimensions, audio_input_enabled)
                        != DEFAULT_CONFIGURATION_REGISTER
                },
            },
    {
        let (rows_count, columns_count) = matrix_dimensions.size();
        let mut driver = IS31FL3728 {
            i2c,
            address,
            dimensions: matrix_dimensions,
            audio_input_enabled,
            rows_count,
            columns_count,
            configuration_register: DEFAULT_CONFIGURATION_REGISTER,
            lighting_effects_register: DEFAULT_LIGHTING_EFFECT_REGISTER,
            log: Ghost(Seq::empty()),
        };
        proof {
            assert(0u8 & 0x80 == 0) by (bit_vector);
        }
        match driver.init() {
            Ok(()) => {
                proof {
                    let log = driver.log();
                    if log.len() > 0 {
                        assert(log =~= seq![log.last()]);
                    }
                }
                Ok(driver)
            },
            Err(e) => Err(e),
        }
    }

    /// Hands one register write to the bus and records it.
    fn write_i2c(&mut self, register: u8, value: u8) -> (r: Result<(), DriverError<ErrorKind>>)
        ensures
            final(self).settings() == old(self).settings(),
            final(self).rows_count == old(self).rows_count,
            final(self).columns_count == old(self).columns_count,
            wrote_one(old(self).log(), final(self).log(), register, value, r),
            final(self).log().last().address == old(self).address,
            final(self).log() == old(self).log().push(final(self).log().last()),
            last_accepted(
                final(self).log(),
                LIGHTING_EFFECT_ADDRESS,
                DEFAULT_LIGHTING_EFFECT_REGISTER,
            ) == if register == LIGHTING_EFFECT_ADDRESS && r is Ok {
                value
            } else {
                last_accepted(
                    old(self).log(),
                    LIGHTING_EFFECT_ADDRESS,
                    DEFAULT_LIGHTING_EFFECT_REGISTER,
                )
            },
            last_accepted(final(self).log(), CONFIGURATION_ADDRESS, DEFAULT_CONFIGURATION_REGISTER)
                == if register == CONFIGURATION_ADDRESS && r is Ok {
                value
            } else {
                last_accepted(
                    old(self).log(),
                    CONFIGURATION_ADDRESS,
                    DEFAULT_CONFIGURATION_REGISTER,
                )
            },
    {
        let frame: [u8; 2] = [register, value];
        let sent = bus_write(&mut self.i2c, self.address, frame.as_slice());
        proof {
            let failure = match sent {
                Ok(_) => None,
                Err(e) => Some(e),
            };
            let ghost before = self.log@;
            let ghost transfer = Transfer { address: self.address, register, value, failure };
            self.log@ = before.push(transfer);
            assert(self.log@.drop_last() =~= before);
            lemma_last_accepted_push(
                before,
                transfer,
                LIGHTING_EFFECT_ADDRESS,
                DEFAULT_LIGHTING_EFFECT_REGISTER,
            );
            lemma_last_accepted_push(
                before,
                transfer,
                CONFIGURATION_ADDRESS,
                DEFAULT_CONFIGURATION_REGISTER,
            );
        }
        match sent {
            Ok(()) => Ok(()),
            Err(e) => Err(DriverError::I2C(e)),
        }
    }

    /// Writes the configuration register.
    fn write_config(&mut self, configuration: u8) -> (r: Result<(), DriverError<ErrorKind>>)
        requires
            old(self).steady(),
        ensures
            final(self).steady(),
            final(self).settings() == old(self).settings(),
            wrote_one(old(self).log(), final(self).log(), CONFIGURATION_ADDRESS, configuration, r),
            last_accepted(final(self).log(), CONFIGURATION_ADDRESS, DEFAULT_CONFIGURATION_REGISTER)
                == if r is Ok {
                configuration
            } else {
                last_accepted(
                    old(self).log(),
                    CONFIGURATION_ADDRESS,
                    DEFAULT_CONFIGURATION_REGISTER,
                )
            },
    {
        let r = self.write_i2c(CONFIGURATION_ADDRESS, configuration);
        r
    }

    /// Writes the lighting-effects register if `configuration` is not what it
    /// holds already, and keeps the new value if the bus accepted it.
    fn update_lighting_effect(&mut self, configuration: u8) -> (r: Result<
        (),
        DriverError<ErrorKind>,
    >)
        requires
            old(self).wf(),
            configuration & 0x80 == 0,
        ensures
            final(self).wf(),
            old(self).configuration_in_step() ==> final(self).configuration_in_step(),
            final(self).settings() == (Settings {
                lighting_effects_register: final(self).settings().lighting_effects_register,
                ..old(self).settings()
            }),
            cached_write(
                old(self).settings().lighting_effects_register,
                configuration,
                LIGHTING_EFFECT_ADDRESS,
                old(self).log(),
                final(self).log(),
                final(self).settings().lighting_effects_register,
                r,
            ),
    {
        if self.lighting_effects_register != configuration {
            let r = self.write_i2c(LIGHTING_EFFECT_ADDRESS, configuration);
            match r {
                Ok(()) => {
                    self.lighting_effects_register = configuration;
                    Ok(())
                },
                Err(e) => Err(e),
            }
        } else {
            Ok(())
        }
    }

    /// Writes the configuration for the geometry and the audio input, unless
    /// the register holds it already.
    fn init(&mut self) -> (r: Result<(), DriverError<ErrorKind>>)
        requires
            old(self).steady(),
        ensures
            final(self).steady(),
            r is Ok ==> final(self).wf(),
            r is Err ==> r->Err_0 is I2C,
            final(self).settings() == (Settings {
                configuration_register: final(self).settings().configuration_register,
                ..old(self).settings()
            }),
            cached_write(
                old(self).settings().configuration_register,
                initial_configuration(
                    old(self).settings().dimensions,
                    old(self).settings().audio_input_enabled,
                ),
                CONFIGURATION_ADDRESS,
                old(self).log(),
                final(self).log(),
                final(self).settings().configuration_register,
                r,
            ),
    {
        let configuration: u8 = initial_configuration(self.dimensions, self.audio_input_enabled);
        proof {
            lemma_shutdown_bit(self.dimensions, self.audio_input_enabled, configuration);
        }
        if configuration != self.configuration_register {
            match self.write_config(configuration) {
                Ok(()) => {
                    self.configuration_register = configuration;
                    Ok(())
                },
                Err(e) => Err(e),
            }
        } else {
            Ok(())
        }
    }

    /// Shows the columns sent before: one write to the update register.
    pub fn update(&mut self) -> (r: Result<(), DriverError<ErrorKind>>)
        requires
            old(self).wf(),
        ensures
            final(self).wf(),
            old(self).configuration_in_step() ==> final(self).configuration_in_step(),
            final(self).settings() == old(self).settings(),
            wrote_one(old(self).log(), final(self).log(), UPDATE_COLUMN_ADDRESS, 0, r),
    {
        let r = self.write_i2c(UPDATE_COLUMN_ADDRESS, 0);
        r
    }

    /// Sends one column, which shows with the next update. Columns count from
    /// 1. A column beyond the matrix is refused before anything is written.
    pub fn send_column(&mut self, column_number: u8, column: u8) -> (r: Result<
        (),
        DriverError<ErrorKind>,
    >)
        requires
            old(self).wf(),
        ensures
            final(self).wf(),
            old(self).configuration_in_step() && column_number != 0 ==> final(self).configuration_in_step(),
            final(self).settings() == old(self).settings(),
            column_number > old(self).settings().dimensions.columns() ==> final(self).log() == old(self).log() && r == Err::<(), DriverError<ErrorKind>>(
                DriverError::InvalidColumnNumber(
                    column_number,
                    old(self).settings().dimensions.columns(),
                ),
            ),
            column_number <= old(self).settings().dimensions.columns() ==> wrote_one(
                old(self).log(),
                final(self).log(),
                column_number,
                column,
                r,
            ),
    {
        if column_number > self.columns_count {
            return Err(DriverError::invalid_column(column_number, self.columns_count));
        }
        let r = self.write_i2c(column_number, column);
        r
    }

    /// Sends one column and shows it: the column write, then the update.
    pub fn draw_column(&mut self, column_number: u8, column: u8) -> (r: Result<
        (),
        DriverError<ErrorKind>,
    >)
        requires
            old(self).wf(),
        ensures
            final(self).wf(),
            old(self).configuration_in_step() && column_number != 0 ==> final(self).configuration_in_step(),
            final(self).settings() == old(self).settings(),
            column_number > old(self).settings().dimensions.columns() ==> final(self).log() == old(self).log() && r == Err::<(), DriverError<ErrorKind>>(
                DriverError::InvalidColumnNumber(
                    column_number,
                    old(self).settings().dimensions.columns(),
                ),
            ),
            column_number <= old(self).settings().dimensions.columns() ==> performed(
                old(self).log(),
                final(self).log(),
                seq![(column_number, column), update_frame()],
                Ok(()),
                r,
            ),
    {
        let ghost plan = seq![(column_number, column), update_frame()];
        proof {
            lemma_nothing_yet(self.log(), plan);
        }
        match self.send_column(column_number, column) {
            Ok(()) => {},
            Err(e) => {
                proof {
                    if column_number <= self.columns_count {
                        lemma_one_more(
                            old(self).log(),
                            old(self).log(),
                            self.log(),
                            plan,
                            0,
                            Ok(()),
                            Err(e),
                        );
                    }
                }
                return Err(e);
            },
        }
        let ghost sent = self.log();
        proof {
            lemma_one_more(old(self).log(), old(self).log(), sent, plan, 0, Ok(()), Ok(()));
        }
        let r = self.update();
        proof {
            lemma_one_more(old(self).log(), sent, self.log(), plan, 1, Ok(()), r);
            if r is Ok {
                lemma_all_done(old(self).log(), self.log(), plan, Ok(()));
            }
        }
        r
    }

    /// Shows a picture given by columns, the first value in column 1: one
    /// write for each column, then the update. A picture wider than the matrix
    /// has the columns that fit sent and is then refused, without an update.
    pub fn draw(&mut self, picture: &[u8]) -> (r: Result<(), DriverError<ErrorKind>>)
        requires
            old(self).wf(),
        ensures
            final(self).wf(),
            old(self).configuration_in_step() ==> final(self).configuration_in_step(),
            final(self).settings() == old(self).settings(),
            picture@.len() <= old(self).settings().dimensions.columns() ==> performed(
                old(self).log(),
                final(self).log(),
                picture_plan(picture@),
                Ok(()),
                r,
            ),
            picture@.len() > old(self).settings().dimensions.columns() ==> performed(
                old(self).log(),
                final(self).log(),
                column_frames(picture@.take(old(self).settings().dimensions.columns() as int)),
                Err(
                    DriverError::InvalidColumnNumber(
                        (old(self).settings().dimensions.columns() + 1) as u8,
                        old(self).settings().dimensions.columns(),
                    ),
                ),
                r,
            ),
    {
        let ghost columns = self.columns_count;
        let ghost fits = picture@.len() <= columns;
        let ghost plan = if fits {
            picture_plan(picture@)
        } else {
            column_frames(picture@.take(columns as int))
        };
        let ghost end: Result<(), DriverError<ErrorKind>> = if fits {
            Ok(())
        } else {
            Err(DriverError::InvalidColumnNumber((columns + 1) as u8, columns))
        };
        proof {
            lemma_nothing_yet(self.log(), plan);
        }
        let mut column_idx: usize = 0;
        while column_idx < picture.len()
            invariant
                self.wf(),
                old(self).configuration_in_step() ==> self.configuration_in_step(),
                self.settings() == old(self).settings(),
                columns == self.columns_count,
                columns <= 11,
                column_idx <= picture@.len(),
                column_idx <= columns,
                fits == (picture@.len() <= columns),
                plan == if fits {
                    picture_plan(picture@)
                } else {
                    column_frames(picture@.take(columns as int))
                },
                end == if fits {
                    Ok::<(), DriverError<ErrorKind>>(())
                } else {
                    Err::<(), DriverError<ErrorKind>>(
                        DriverError::InvalidColumnNumber((columns + 1) as u8, columns),
                    )
                },
                accepted_so_far(old(self).log(), self.log(), plan, column_idx as int),
            decreases picture@.len() - column_idx,
        {
            let column_number: u8 = (column_idx + 1) as u8;
            let ghost sent = self.log();
            match self.send_column(column_number, picture[column_idx]) {
                Ok(()) => {
                    proof {
                        lemma_one_more(old(self).log(), sent, self.log(), plan, column_idx as int, end, Ok(()));
                    }
                },
                Err(e) => {
                    proof {
                        if column_idx < columns {
                            lemma_one_more(
                                old(self).log(),
                                sent,
                                self.log(),
                                plan,
                                column_idx as int,
                                end,
                                Err(e),
                            );
                        } else {
                            lemma_all_done(old(self).log(), self.log(), plan, end);
                        }
                    }
                    return Err(e);
                },
            }
            column_idx = column_idx + 1;
        }
        let ghost sent = self.log();
        let r = self.update();
        proof {
            lemma_one_more(old(self).log(), sent, self.log(), plan, picture@.len() as int, end, r);
            if r is Ok {
                lemma_all_done(old(self).log(), self.log(), plan, end);
            }
        }
        r
    }

    /// Sets the LED current. The gain bits of the lighting-effects register
    /// stay; the register is written only if that changes it.
    pub fn set_intensity(&mut self, intensity: LightingIntensity) -> (r: Result<
        (),
        DriverError<ErrorKind>,
    >)
        requires
            old(self).wf(),
        ensures
            final(self).wf(),
            old(self).configuration_in_step() ==> final(self).configuration_in_step(),
            old(self).set_intensity_to(final(self), intensity, r),
    {
        let configuration: u8 = with_intensity(self.lighting_effects_register, intensity);
        proof {
            lemma_intensity_keeps_gain(self.lighting_effects_register, intensity);
        }
        self.update_lighting_effect(configuration)
    }

    /// Sets the audio input gain. The intensity bits of the lighting-effects
    /// register stay; the register is written only if that changes it.
    pub fn set_audio_input_gain(&mut self, gain: AudioInputGain) -> (r: Result<
        (),
        DriverError<ErrorKind>,
    >)
        requires
            old(self).wf(),
        ensures
            final(self).wf(),
            old(self).configuration_in_step() ==> final(self).configuration_in_step(),
            old(self).set_gain_to(final(self), gain, r),
    {
        let configuration: u8 = with_gain(self.lighting_effects_register, gain);
        proof {
            lemma_gain_keeps_intensity(self.lighting_effects_register, gain);
        }
        self.update_lighting_effect(configuration)
    }

    /// Switches the audio equaliser on: one write, whatever was written before.
    pub fn audio_eq_enable(&mut self) -> (r: Result<(), DriverError<ErrorKind>>)
        requires
            old(self).wf(),
        ensures
            final(self).wf(),
            old(self).configuration_in_step() ==> final(self).configuration_in_step(),
            final(self).settings() == old(self).settings(),
            wrote_one(old(self).log(), final(self).log(), AUDIO_EQ_ADDRESS, AUDIO_EQ_ENABLE_BIT, r),
    {
        let r = self.write_i2c(AUDIO_EQ_ADDRESS, AUDIO_EQ_ENABLE_BIT);
        r
    }

    /// Switches the audio equaliser off: one write, whatever was written
    /// before.
    pub fn audio_eq_disable(&mut self) -> (r: Result<(), DriverError<ErrorKind>>)
        requires
            old(self).wf(),
        ensures
            final(self).wf(),
            old(self).configuration_in_step() ==> final(self).configuration_in_step(),
            final(self).settings() == old(self).settings(),
            wrote_one(old(self).log(), final(self).log(), AUDIO_EQ_ADDRESS, 0, r),
    {
        let r = self.write_i2c(AUDIO_EQ_ADDRESS, 0);
        r
    }

    /// Shows an 8 by 8 picture given by rows, bit 7 of a row being its
    /// leftmost pixel: the eight transposed columns, then the update. On any
    /// other geometry it is refused before anything is written.
    pub fn draw_bitmap(&mut self, picture: &[u8; 8]) -> (r: Result<(), DriverError<ErrorKind>>)
        requires
            old(self).wf(),
        ensures
            final(self).wf(),
            old(self).configuration_in_step() ==> final(self).configuration_in_step(),
            final(self).settings() == old(self).settings(),
            old(self).settings().dimensions != MatrixDimensions::M8x8 ==> final(self).log() == old(self).log() && r == Err::<(), DriverError<ErrorKind>>(DriverError::IncorrectMatrixSize),
            old(self).settings().dimensions == MatrixDimensions::M8x8 ==> performed(
                old(self).log(),
                final(self).log(),
                picture_plan(transposed(picture@)),
                Ok(()),
                r,
            ),
            old(self).settings().dimensions == MatrixDimensions::M8x8 && r is Ok ==> final(self).log().len() == old(self).log().len() + 9,
    {
        if self.dimensions != MatrixDimensions::M8x8 {
            return Err(DriverError::IncorrectMatrixSize);
        }
        let ghost plan = picture_plan(transposed(picture@));
        proof {
            lemma_nothing_yet(self.log(), plan);
        }
        let mut column_idx: u8 = 0;
        while column_idx < 8
            invariant
                self.wf(),
                old(self).configuration_in_step() ==> self.configuration_in_step(),
                self.settings() == old(self).settings(),
                self.dimensions == MatrixDimensions::M8x8,
                column_idx <= 8,
                plan == picture_plan(transposed(picture@)),
                accepted_so_far(old(self).log(), self.log(), plan, column_idx as int),
            decreases 8 - column_idx,
        {
            let column: u8 = transpose_column(picture, column_idx);
            let ghost sent = self.log();
            match self.send_column(column_idx + 1, column) {
                Ok(()) => {},
                Err(e) => {
                    proof {
                        lemma_one_more(
                            old(self).log(),
                            sent,
                            self.log(),
                            plan,
                            column_idx as int,
                            Ok(()),
                            Err(e),
                        );
                    }
                    return Err(e);
                },
            }
            proof {
                lemma_one_more(old(self).log(), sent, self.log(), plan, column_idx as int, Ok(()), Ok(()));
            }
            column_idx = column_idx + 1;
        }
        let ghost sent = self.log();
        let r = self.update();
        proof {
            lemma_one_more(old(self).log(), sent, self.log(), plan, 8, Ok(()), r);
            if r is Ok {
                lemma_all_done(old(self).log(), self.log(), plan, Ok(()));
            }
        }
        r
    }

    /// Shows the pixels of a drawing surface as wide and as high as the
    /// matrix: they are rasterised into columns, dark pixels and pixels off the
    /// surface dropped; then every column of the matrix is sent, then the
    /// update.
    pub fn draw_pixels(&mut self, pixels: &[Pixel]) -> (r: Result<(), DriverError<ErrorKind>>)
        requires
            old(self).wf(),
        ensures
            final(self).wf(),
            old(self).configuration_in_step() ==> final(self).configuration_in_step(),
            final(self).settings() == old(self).settings(),
            performed(
                old(self).log(),
                final(self).log(),
                picture_plan(
                    rasterized(
                        pixels@,
                        old(self).settings().dimensions.columns(),
                        old(self).settings().dimensions.rows(),
                    ).take(old(self).settings().dimensions.columns() as int),
                ),
                Ok(()),
                r,
            ),
    {
        let buffer: [u8; 11] = rasterize(pixels, self.columns_count, self.rows_count);
        let ghost plan = picture_plan(buffer@.take(self.columns_count as int));
        proof {
            lemma_rasterized_len(pixels@, self.columns_count, self.rows_count);
            lemma_nothing_yet(self.log(), plan);
        }
        let mut idx: u8 = 0;
        while idx < self.columns_count
            invariant
                self.wf(),
                old(self).configuration_in_step() ==> self.configuration_in_step(),
                self.settings() == old(self).settings(),
                idx <= self.columns_count <= 11,
                buffer@.len() == 11,
                buffer@ == rasterized(
                    pixels@,
                    old(self).settings().dimensions.columns(),
                    old(self).settings().dimensions.rows(),
                ),
                self.columns_count == old(self).settings().dimensions.columns(),
                plan == picture_plan(buffer@.take(self.columns_count as int)),
                accepted_so_far(old(self).log(), self.log(), plan, idx as int),
            decreases self.columns_count - idx,
        {
            let ghost sent = self.log();
            match self.send_column(idx + 1, buffer[idx as usize]) {
                Ok(()) => {},
                Err(e) => {
                    proof {
                        lemma_one_more(
                            old(self).log(),
                            sent,
                            self.log(),
                            plan,
                            idx as int,
                            Ok(()),
                            Err(e),
                        );
                    }
                    return Err(e);
                },
            }
            proof {
                lemma_one_more(old(self).log(), sent, self.log(), plan, idx as int, Ok(()), Ok(()));
            }
            idx = idx + 1;
        }
        let ghost sent = self.log();
        let r = self.update();
        proof {
            lemma_one_more(
                old(self).log(),
                sent,
                self.log(),
                plan,
                self.columns_count as int,
                Ok(()),
                r,
            );
            if r is Ok {
                lemma_all_done(old(self).log(), self.log(), plan, Ok(()));
            }
        }
        r
    }

    /// Writes `value` to every column of the matrix, then the update.
    fn paint(&mut self, value: u8) -> (r: Result<(), DriverError<ErrorKind>>)
        requires
            old(self).wf(),
        ensures
            final(self).wf(),
            old(self).configuration_in_step() ==> final(self).configuration_in_step(),
            final(self).settings() == old(self).settings(),
            performed(
                old(self).log(),
                final(self).log(),
                picture_plan(uniform(old(self).settings().dimensions.columns(), value)),
                Ok(()),
                r,
            ),
            r is Ok ==> final(self).log().len() == old(self).log().len() + old(self).settings().dimensions.columns() + 1,
    {
        let ghost plan = picture_plan(uniform(self.columns_count, value));
        proof {
            lemma_nothing_yet(self.log(), plan);
        }
        let mut i: u8 = 1;
        while i <= self.columns_count
            invariant
                self.wf(),
                old(self).configuration_in_step() ==> self.configuration_in_step(),
                self.settings() == old(self).settings(),
                1 <= i <= self.columns_count + 1,
                self.columns_count <= 11,
                plan == picture_plan(uniform(self.columns_count, value)),
                accepted_so_far(old(self).log(), self.log(), plan, i - 1),
            decreases self.columns_count + 1 - i,
        {
            let ghost sent = self.log();
            match self.send_column(i, value) {
                Ok(()) => {},
                Err(e) => {
                    proof {
                        lemma_one_more(old(self).log(), sent, self.log(), plan, i - 1, Ok(()), Err(e));
                    }
                    return Err(e);
                },
            }
            proof {
                lemma_one_more(old(self).log(), sent, self.log(), plan, i - 1, Ok(()), Ok(()));
            }
            i = i + 1;
        }
        let ghost sent = self.log();
        let r = self.update();
        proof {
            lemma_one_more(
                old(self).log(),
                sent,
                self.log(),
                plan,
                self.columns_count as int,
                Ok(()),
                r,
            );
            if r is Ok {
                lemma_all_done(old(self).log(), self.log(), plan, Ok(()));
            }
        }
        r
    }

    /// Switches every LED off: a zero byte to each column, then the update.
    pub fn clear(&mut self) -> (r: Result<(), DriverError<ErrorKind>>)
        requires
            old(self).wf(),
        ensures
            final(self).wf(),
            old(self).configuration_in_step() ==> final(self).configuration_in_step(),
            final(self).settings() == old(self).settings(),
            performed(
                old(self).log(),
                final(self).log(),
                picture_plan(uniform(old(self).settings().dimensions.columns(), 0x00)),
                Ok(()),
                r,
            ),
            r is Ok ==> final(self).log().len() == old(self).log().len() + old(self).settings().dimensions.columns() + 1,
    {
        self.paint(0)
    }

    /// Switches every LED on: a byte of ones to each column, then the update.
    /// Where the matrix has fewer than eight rows the chip ignores the upper
    /// bits.
    pub fn fill(&mut self) -> (r: Result<(), DriverError<ErrorKind>>)
        requires
            old(self).wf(),
        ensures
            final(self).wf(),
            old(self).configuration_in_step() ==> final(self).configuration_in_step(),
            final(self).settings() == old(self).settings(),
            performed(
                old(self).log(),
                final(self).log(),
                picture_plan(uniform(old(self).settings().dimensions.columns(), 0xFF)),
                Ok(()),
                r,
            ),
            r is Ok ==> final(self).log().len() == old(self).log().len() + old(self).settings().dimensions.columns() + 1,
    {
        self.paint(0b1111_1111)
    }

    /// Switches the matrix off and keeps the picture: the configuration with
    /// the shutdown bit set is written, every time, and kept if the bus
    /// accepted it.
    pub fn software_shutdown(&mut self) -> (r: Result<(), DriverError<ErrorKind>>)
        requires
            old(self).wf(),
        ensures
            final(self).wf(),
            r is Ok || old(self).configuration_in_step() ==> final(self).configuration_in_step(),
            final(self).settings() == (Settings {
                configuration_register: if r is Ok {
                    old(self).settings().configuration_register | SHUTDOWN_BIT
                } else {
                    old(self).settings().configuration_register
                },
                ..old(self).settings()
            }),
            wrote_one(
                old(self).log(),
                final(self).log(),
                CONFIGURATION_ADDRESS,
                old(self).settings().configuration_register | SHUTDOWN_BIT,
                r,
            ),
    {
        let configuration: u8 = self.configuration_register | SHUTDOWN_BIT;
        proof {
            lemma_shutdown_bit(self.dimensions, self.audio_input_enabled, self.configuration_register);
        }
        match self.write_config(configuration) {
            Ok(()) => {
                self.configuration_register = configuration;
                Ok(())
            },
            Err(e) => Err(e),
        }
    }

    /// Switches the matrix back on: the configuration with the shutdown bit
    /// clear is written, every time, and kept if the bus accepted it.
    pub fn software_on(&mut self) -> (r: Result<(), DriverError<ErrorKind>>)
        requires
            old(self).wf(),
        ensures
            final(self).wf(),
            r is Ok || old(self).configuration_in_step() ==> final(self).configuration_in_step(),
            final(self).settings() == (Settings {
                configuration_register: if r is Ok {
                    old(self).settings().configuration_register & 0b0111_1111
                } else {
                    old(self).settings().configuration_register
                },
                ..old(self).settings()
            }),
            wrote_one(
                old(self).log(),
                final(self).log(),
                CONFIGURATION_ADDRESS,
                old(self).settings().configuration_register & 0b0111_1111,
                r,
            ),
    {
        let configuration: u8 = self.configuration_register & 0b0111_1111;
        proof {
            lemma_shutdown_bit(self.dimensions, self.audio_input_enabled, self.configuration_register);
        }
        match self.write_config(configuration) {
            Ok(()) => {
                self.configuration_register = configuration;
                Ok(())
            },
            Err(e) => Err(e),
        }
    }
}

} // verus!
