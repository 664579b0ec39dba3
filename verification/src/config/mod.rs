//! Pipeline configuration.

use crate::strings::{ascii_lowercase, ascii_lowered, lowercase, same};
use vstd::prelude::*;

verus! {

/// Where inference runs.
#[derive(Debug, Clone, Copy, PartialEq, Eq, Structural)]
pub enum Device {
    Cuda,
    Cpu,
    Mps,
}

impl Default for Device {
    fn default() -> (r: Self)
        ensures
            r == Device::Cuda,
    {
        Device::Cuda
    }
}

/// The name of a device.
pub open spec fn device_name(device: Device) -> Seq<char> {
    match device {
        Device::Cuda => "cuda"@,
        Device::Cpu => "cpu"@,
        Device::Mps => "mps"@,
    }
}

/// The device that a lowercase name stands for; an unknown name stands for the CPU.
pub open spec fn device_named(name: Seq<char>) -> Device {
    if name == "cuda"@ {
        Device::Cuda
    } else if name == "mps"@ {
        Device::Mps
    } else {
        Device::Cpu
    }
}

/// The device to use where CUDA and Metal were tried: CUDA before Metal before the CPU.
pub open spec fn picked(cuda: bool, metal: bool) -> Device {
    if cuda {
        Device::Cuda
    } else if metal {
        Device::Mps
    } else {
        Device::Cpu
    }
}

impl Device {
    /// The name of the device.
    pub fn as_str(&self) -> (r: &'static str)
        ensures
            r@ == device_name(*self),
    {
        match self {
            Device::Cuda => "cuda",
            Device::Cpu => "cpu",
            Device::Mps => "mps",
        }
    }

    /// The device that a lowercase name stands for.
    pub fn from_lowercase(name: &str) -> (r: Self)
        ensures
            r == device_named(name@),
    {
        if same(name, "cuda") {
            Device::Cuda
        } else if same(name, "mps") {
            Device::Mps
        } else {
            Device::Cpu
        }
    }

    /// The device to use where CUDA and Metal were tried.
    pub fn pick(cuda: bool, metal: bool) -> (r: Self)
        ensures
            r == picked(cuda, metal),
    {
        if cuda {
            Device::Cuda
        } else if metal {
            Device::Mps
        } else {
            Device::Cpu
        }
    }
}

/// The generation of a model.
#[derive(Debug, Clone, Copy, PartialEq, Eq, Structural)]
pub enum ModelVersion {
    V1,
    V2,
    V2Pro,
    V3,
    V4,
}

impl Default for ModelVersion {
    fn default() -> (r: Self)
        ensures
            r == ModelVersion::V2,
    {
        ModelVersion::V2
    }
}

/// The precision that a model computes in.
#[derive(Debug, Clone, Copy, PartialEq, Eq, Structural)]
pub enum Precision {
    F32,
}

/// Configuration of the pipeline.
#[derive(Debug, Clone, Copy, PartialEq, Eq, Structural)]
pub struct Config {
    /// Device to use for inference.
    pub device: Device,
    /// Whether half precision was asked for; the models compute in single precision anyway.
    pub half_precision: bool,
    /// Model version.
    pub model_version: ModelVersion,
}

impl Default for Config {
    fn default() -> (r: Self)
        ensures
            r == (Config {
                device: Device::Cuda,
                half_precision: false,
                model_version: ModelVersion::V2,
            }),
    {
        Self { device: Device::Cuda, half_precision: false, model_version: ModelVersion::V2 }
    }
}

impl Config {
    /// A builder with nothing chosen.
    pub fn builder() -> (r: ConfigBuilder)
        ensures
            r == unset_config(),
    {
        ConfigBuilder { device: None, half_precision: None, model_version: None, tried: None }
    }

    /// Precision of the decoder, encoder and flow models: single, as half precision silences
    /// the decoder.
    pub fn candle_dtype(&self) -> (r: Precision)
        ensures
            r == Precision::F32,
    {
        Precision::F32
    }

    /// Precision of the autoregressive model: single, as lower precisions end it too early.
    pub fn gpt_dtype(&self) -> (r: Precision)
        ensures
            r == Precision::F32,
    {
        Precision::F32
    }
}

/// `candle_core::Device::new_cuda` opens the first CUDA device: what it gives is one. Whether it
/// opens, and the words of the error, depend on the machine and are left unsaid.
#[verifier::external_body]
fn try_cuda() -> (r: Result<Device, String>)
    ensures
        r matches Ok(opened) ==> opened is Cuda,
{
    match candle_core::Device::new_cuda(0).map_err(|e| e.to_string())? {
        candle_core::Device::Cpu => Ok(Device::Cpu),
        candle_core::Device::Cuda(_) => Ok(Device::Cuda),
        candle_core::Device::Metal(_) => Ok(Device::Mps),
    }
}

/// Opens a device: gives the one that was asked for, or says why not. The CPU is always there.
pub fn open_device(device: Device) -> (r: Result<Device, String>)
    ensures
        device is Cpu ==> r is Ok,
        r matches Ok(opened) ==> opened == device,
{
    match device {
        Device::Cpu => Ok(Device::Cpu),
        Device::Cuda => try_cuda(),
        Device::Mps => try_metal(),
    }
}

/// `candle_core::Device::new_metal` opens the first Metal device: what it gives is one. Whether
/// it opens, and the words of the error, depend on the machine and are left unsaid.
#[verifier::external_body]
fn try_metal() -> (r: Result<Device, String>)
    ensures
        r matches Ok(opened) ==> opened is Mps,
{
    match candle_core::Device::new_metal(0).map_err(|e| e.to_string())? {
        candle_core::Device::Cpu => Ok(Device::Cpu),
        candle_core::Device::Cuda(_) => Ok(Device::Cuda),
        candle_core::Device::Metal(_) => Ok(Device::Mps),
    }
}

/// Whether CUDA support was compiled in, as `candle_core::utils::cuda_is_available` tells. It
/// depends on the build.
#[verifier::external_body]
fn cuda_compiled() -> (r: bool) {
    candle_core::utils::cuda_is_available()
}

/// What looking for a device came to: whether CUDA opened and, if it did not, whether Metal did.
#[derive(Debug, Clone, Copy, PartialEq, Eq, Structural)]
pub struct Tried {
    pub cuda: bool,
    pub metal: bool,
}

/// Builder of a configuration.
#[derive(Debug, Clone, Copy, PartialEq, Eq, Structural)]
pub struct ConfigBuilder {
    pub device: Option<Device>,
    pub half_precision: Option<bool>,
    pub model_version: Option<ModelVersion>,
    /// What looking for a device came to, where one was looked for.
    pub tried: Option<Tried>,
}

/// The builder with nothing chosen.
pub open spec fn unset_config() -> ConfigBuilder {
    ConfigBuilder { device: None, half_precision: None, model_version: None, tried: None }
}

/// The builder with the device that trying CUDA and Metal leads to.
pub open spec fn with_tried(builder: ConfigBuilder, tried: Tried) -> ConfigBuilder {
    ConfigBuilder { device: Some(picked(tried.cuda, tried.metal)), tried: Some(tried), ..builder }
}

/// Whether a builder is another one with a device that was looked for.
pub open spec fn looked_for(before: ConfigBuilder, after: ConfigBuilder) -> bool {
    after.tried matches Some(tried) && after == with_tried(before, tried)
}

/// The configuration of a builder, in a build with or without CUDA support.
pub open spec fn built(builder: ConfigBuilder, cuda: bool) -> Config {
    Config {
        device: match builder.device {
            Some(d) => d,
            None => if cuda {
                Device::Cuda
            } else {
                Device::Cpu
            },
        },
        half_precision: builder.half_precision == Some(true),
        model_version: match builder.model_version {
            Some(v) => v,
            None => ModelVersion::V2,
        },
    }
}

impl ConfigBuilder {
    /// Chooses the device by name; "auto", in any case, looks for a device that opens.
    pub fn with_device(self, device: &str) -> (r: Self)
        ensures
            if ascii_lowered(device@) == "auto"@ {
                looked_for(self, r)
            } else {
                r == (ConfigBuilder { device: Some(device_named(lowercase(device@))), ..self })
            },
    {
        if same(ascii_lowercase(device).as_str(), "auto") {
            return self.with_auto_device();
        }
        ConfigBuilder {
            device: Some(Device::from_lowercase(device.to_lowercase().as_str())),
            half_precision: self.half_precision,
            model_version: self.model_version,
            tried: self.tried,
        }
    }

    /// Looks for a device that opens: CUDA, then Metal, and else the CPU.
    pub fn with_auto_device(self) -> (r: Self)
        ensures
            looked_for(self, r),
    {
        let cuda = try_cuda().is_ok();
        let metal = !cuda && try_metal().is_ok();
        self.with_tried_device(Tried { cuda, metal })
    }

    /// Chooses the device that trying CUDA and Metal leads to.
    pub fn with_tried_device(self, tried: Tried) -> (r: Self)
        ensures
            r == with_tried(self, tried),
    {
        ConfigBuilder {
            device: Some(Device::pick(tried.cuda, tried.metal)),
            half_precision: self.half_precision,
            model_version: self.model_version,
            tried: Some(tried),
        }
    }

    /// Asks for half precision, or not.
    pub fn with_half_precision(self, half: bool) -> (r: Self)
        ensures
            r == (ConfigBuilder { half_precision: Some(half), ..self }),
    {
        ConfigBuilder {
            device: self.device,
            half_precision: Some(half),
            model_version: self.model_version,
            tried: self.tried,
        }
    }

    /// Chooses the model version.
    pub fn with_model_version(self, version: ModelVersion) -> (r: Self)
        ensures
            r == (ConfigBuilder { model_version: Some(version), ..self }),
    {
        ConfigBuilder {
            device: self.device,
            half_precision: self.half_precision,
            model_version: Some(version),
            tried: self.tried,
        }
    }

    /// The configuration, in a build with or without CUDA support, on which the device
    /// depends where none was chosen.
    pub fn build_for(self, cuda: bool) -> (r: Config)
        ensures
            r == built(self, cuda),
    {
        Config {
            device: match self.device {
                Some(d) => d,
                None => if cuda {
                    Device::Cuda
                } else {
                    Device::Cpu
                },
            },
            half_precision: match self.half_precision {
                Some(h) => h,
                None => false,
            },
            model_version: match self.model_version {
                Some(v) => v,
                None => ModelVersion::V2,
            },
        }
    }

    /// The configuration.
    pub fn build(self) -> (r: Config)
        ensures
            r == built(self, true) || r == built(self, false),
    {
        self.build_for(cuda_compiled())
    }
}

impl Default for ConfigBuilder {
    fn default() -> (r: Self)
        ensures
            r == unset_config(),
    {
        Config::builder()
    }
}

/// A device that is looked for is the one that is built with, in every build: CUDA where it opened,
/// else Metal where it opened, else the CPU.
pub proof fn a_device_that_was_looked_for_is_used(
    before: ConfigBuilder,
    after: ConfigBuilder,
    tried: Tried,
    compiled: bool,
)
    requires
        looked_for(before, after),
        after.tried == Some(tried),
    ensures
        built(after, compiled).device == (if tried.cuda {
            Device::Cuda
        } else if tried.metal {
            Device::Mps
        } else {
            Device::Cpu
        }),
        built(after, compiled).half_precision == built(before, compiled).half_precision,
        built(after, compiled).model_version == built(before, compiled).model_version,
{
}

/// A device goes by its own name, and by no other device's.
pub proof fn devices_go_by_their_names(device: Device)
    ensures
        device_named(device_name(device)) == device,
{
    reveal_strlit("cuda");
    reveal_strlit("mps");
    reveal_strlit("cpu");
    assert("cuda"@.len() == 4 && "mps"@.len() == 3 && "cpu"@.len() == 3);
    assert("mps"@[0] == 'm' && "cpu"@[0] == 'c');
}

/// Of the devices that can be opened CUDA is taken before Metal before the CPU, and no device
/// that cannot.
pub proof fn only_open_devices_are_picked(cuda: bool, metal: bool)
    ensures
        picked(cuda, metal) == Device::Cuda <==> cuda,
        picked(cuda, metal) == Device::Mps <==> metal && !cuda,
{
}

} // verus!
