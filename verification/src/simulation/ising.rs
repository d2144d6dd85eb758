//! The lattice model as the user interface sees it: its two adjustable
//! parameters, and the engine that reads them.

use std::sync::Arc;
use vstd::prelude::*;

use crate::error::WGPUError;
use crate::gpu::physics::ising::{
    lattice_fits,
    reported_cells,
    EngineState,
    IsingPipeline,
    STREAM_BYTES,
};
use crate::simulation::atomic_f32::AtomicF32;
use crate::simulation::{same_text, Parameter, UpadeParameter};

verus! {

/// Name of the temperature among the parameters.
pub const TEMPERATURE_TAG: &'static str = "T";

/// Name of the strength of the external field among the parameters.
pub const FIELD_TAG: &'static str = "h";

/// Pattern of the temperature that a model starts with, 2.2691853: the
/// critical temperature of the lattice.
pub const INITIAL_TEMPERATURE: u32 = 0x4011_3A55;

/// Pattern of the field strength that a model starts with, zero.
pub const INITIAL_FIELD: u32 = 0;

/// Pattern of the least temperature that can be set, 0.1.
pub const TEMPERATURE_MIN: u32 = 0x3DCC_CCCD;

/// Pattern of the greatest temperature that can be set, 10.
pub const TEMPERATURE_MAX: u32 = 0x4120_0000;

/// Pattern of the least field strength that can be set, -2.
pub const FIELD_MIN: u32 = 0xC000_0000;

/// Pattern of the greatest field strength that can be set, 2.
pub const FIELD_MAX: u32 = 0x4000_0000;

/// One of the two adjustable parameters of the model.
#[derive(Debug, Clone, Copy, PartialEq, Eq)]
pub enum IsingParameter {
    Temperature,
    ExternalField,
}

/// The parameter that a name stands for, if it is declared.
pub open spec fn declared(tag: Seq<char>) -> Option<IsingParameter> {
    if tag == TEMPERATURE_TAG@ {
        Some(IsingParameter::Temperature)
    } else if tag == FIELD_TAG@ {
        Some(IsingParameter::ExternalField)
    } else {
        None
    }
}

/// The parameter that an update sets, if any.
pub open spec fn updated(update: UpadeParameter) -> Option<IsingParameter> {
    match update {
        UpadeParameter::Slider { tag, .. } => declared(tag@),
        _ => None,
    }
}

/// An update that the model can take: every update but that of a slider with
/// a name that was not declared.
pub open spec fn known_update(update: UpadeParameter) -> bool {
    update matches UpadeParameter::Slider { tag, .. } ==> declared(tag@).is_some()
}

/// The parameters of the model as the user interface set them last.
pub struct IsingParameters {
    pub temperature: u32,
    pub external_field: u32,
}

impl IsingParameters {
    /// The parameters after an update.
    pub open spec fn after(self, update: UpadeParameter) -> IsingParameters {
        match update {
            UpadeParameter::Slider { tag, value } => match declared(tag@) {
                Some(IsingParameter::Temperature) => IsingParameters { temperature: value, ..self },
                Some(IsingParameter::ExternalField) => IsingParameters {
                    external_field: value,
                    ..self
                },
                None => self,
            },
            _ => self,
        }
    }
}

/// The lattice model towards the user interface.
///
/// The two parameters live in cells that the engine reads while it runs. The
/// model is their only writer: it keeps what it wrote last, which is what
/// the cells hold.
pub struct Ising {
    temperature: Arc<AtomicF32>,
    external_field: Arc<AtomicF32>,
    temperature_set: u32,
    external_field_set: u32,
}

impl View for Ising {
    type V = IsingParameters;

    closed spec fn view(&self) -> IsingParameters {
        IsingParameters {
            temperature: self.temperature_set,
            external_field: self.external_field_set,
        }
    }
}

impl Ising {
    /// The cells that the model writes the temperature and the field to.
    pub closed spec fn parameter_cells(&self) -> (Arc<AtomicF32>, Arc<AtomicF32>) {
        (self.temperature, self.external_field)
    }

    /// A model at the critical temperature and without field.
    pub fn new() -> (model: Self)
        ensures
            model@ == (IsingParameters {
                temperature: INITIAL_TEMPERATURE,
                external_field: INITIAL_FIELD,
            }),
    {
        Ising {
            temperature: Arc::new(AtomicF32::new(INITIAL_TEMPERATURE)),
            external_field: Arc::new(AtomicF32::new(INITIAL_FIELD)),
            temperature_set: INITIAL_TEMPERATURE,
            external_field_set: INITIAL_FIELD,
        }
    }

    /// The temperature as it was set last.
    pub fn temperature(&self) -> (bits: u32)
        ensures
            bits == self@.temperature,
    {
        self.temperature_set
    }

    /// The field strength as it was set last.
    pub fn external_field(&self) -> (bits: u32)
        ensures
            bits == self@.external_field,
    {
        self.external_field_set
    }

    /// The parameter that a name stands for, if it is declared.
    pub fn parameter_of(tag: &str) -> (parameter: Option<IsingParameter>)
        ensures
            parameter == declared(tag@),
    {
        if same_text(tag, TEMPERATURE_TAG) {
            Some(IsingParameter::Temperature)
        } else if same_text(tag, FIELD_TAG) {
            Some(IsingParameter::ExternalField)
        } else {
            None
        }
    }

    /// The parameters of the model: the temperature, on a logarithmic scale
    /// from 0.1 to 10, and the field strength, on a linear scale from -2 to
    /// 2, each with the value that was set last.
    pub fn egui_parameters(&self) -> (parameters: Vec<Parameter>)
        ensures
            parameters@.len() == 2,
            parameters@[0] matches Parameter::Slider { tag, value, logarithmic, min, max } && tag@
                == TEMPERATURE_TAG@ && value == self@.temperature && logarithmic && min
                == TEMPERATURE_MIN && max == TEMPERATURE_MAX,
            parameters@[1] matches Parameter::Slider { tag, value, logarithmic, min, max } && tag@
                == FIELD_TAG@ && value == self@.external_field && !logarithmic && min == FIELD_MIN
                && max == FIELD_MAX,
    {
        let mut parameters: Vec<Parameter> = Vec::new();
        parameters.push(
            Parameter::Slider {
                tag: TEMPERATURE_TAG,
                value: self.temperature_set,
                logarithmic: true,
                min: TEMPERATURE_MIN,
                max: TEMPERATURE_MAX,
            },
        );
        parameters.push(
            Parameter::Slider {
                tag: FIELD_TAG,
                value: self.external_field_set,
                logarithmic: false,
                min: FIELD_MIN,
                max: FIELD_MAX,
            },
        );
        parameters
    }

    /// Takes a change from the user interface: a slider sets the parameter it
    /// names, for the model and for the engines that read its cells, and
    /// toggles and buttons, of which the model has none, are passed over. A
    /// slider of a name that was not declared is a fault of the caller. The
    /// parameter that was set is returned.
    pub fn update_parameter(&mut self, update: UpadeParameter) -> (set: Option<IsingParameter>)
        requires
            known_update(update),
        ensures
            set == updated(update),
            final(self)@ == old(self)@.after(update),
            final(self).parameter_cells() == old(self).parameter_cells(),
    {
        match update {
            UpadeParameter::Slider { tag, value } => {
                let parameter: Option<IsingParameter> = Self::parameter_of(tag);
                match parameter {
                    Some(IsingParameter::Temperature) => {
                        self.temperature.store(value);
                        self.temperature_set = value;
                    },
                    Some(IsingParameter::ExternalField) => {
                        self.external_field.store(value);
                        self.external_field_set = value;
                    },
                    None => {},
                }
                parameter
            },
            _ => None,
        }
    }

    /// An engine for a lattice of the given size that reads the cells that
    /// this model writes.
    pub fn physics(&self, seed: u128, width: u32, height: u32) -> (made: Result<
        IsingPipeline,
        WGPUError,
    >)
        ensures
            lattice_fits(width, height) ==> made.is_ok() && made.unwrap()@ == EngineState::initial(
                seed,
                width,
                height,
            ) && made.unwrap()@.wf() && made.unwrap().parameter_cells() == self.parameter_cells(),
            !lattice_fits(width, height) ==> made == Err::<IsingPipeline, WGPUError>(
                WGPUError::BufferSizeOverflow(reported_cells(width, height), STREAM_BYTES),
            ),
    {
        IsingPipeline::new(
            seed,
            width,
            height,
            Arc::clone(&self.temperature),
            Arc::clone(&self.external_field),
        )
    }
}

} // verus!
