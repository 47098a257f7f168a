//! Audio device descriptions and sample conversion.
//!
//! The audio backend lives outside the library; it enumerates devices,
//! runs the stream, and converts each delivered block to fixed-point
//! samples with the conversions verified here before handing it to the
//! capture latch and the meter.

use vstd::prelude::*;
use vstd::string::StrSliceExecFns;
use vstd::string::StringExecFns;
use vstd::arithmetic::mul::lemma_mul_inequality;
use vstd::arithmetic::div_mod::{lemma_div_is_ordered, lemma_div_by_multiple};

verus! {

/// An input device as the backend reports it.  The id encodes either
/// `default:<name>` or `<index>:<name>`.
#[derive(Debug, Clone, PartialEq, Eq)]
pub struct AudioDevice {
    pub id: String,
    pub name: String,
    /// Sample rate in Hz.
    pub sample_rate: u32,
    /// Interleaved channel count.
    pub channels: u16,
}

#[derive(Debug)]
pub enum AudioError {
    Backend(String),
    NoInputDevice,
    DeviceNotFound,
    AlreadyRunning,
    NotRunning,
    MeterLockPoisoned,
}

/// The human-readable text of an audio error.
pub open spec fn spec_audio_error_message(e: AudioError) -> Seq<char> {
    match e {
        AudioError::Backend(detail) => "audio backend error: "@ + detail@,
        AudioError::NoInputDevice => "no input devices available"@,
        AudioError::DeviceNotFound => "input device not found"@,
        AudioError::AlreadyRunning => "audio capture already running"@,
        AudioError::NotRunning => "audio capture is not running"@,
        AudioError::MeterLockPoisoned => "level meter lock was poisoned"@,
    }
}

impl AudioError {
    pub fn message(&self) -> (r: String)
        ensures
            r@ == spec_audio_error_message(*self),
    {
        match self {
            AudioError::Backend(detail) => {
                let mut out = String::from_str("audio backend error: ");
                out.append(detail.as_str());
                out
            },
            AudioError::NoInputDevice => String::from_str("no input devices available"),
            AudioError::DeviceNotFound => String::from_str("input device not found"),
            AudioError::AlreadyRunning => String::from_str("audio capture already running"),
            AudioError::NotRunning => String::from_str("audio capture is not running"),
            AudioError::MeterLockPoisoned => String::from_str("level meter lock was poisoned"),
        }
    }
}

/// A running input stream, as the backend hands it out: playable and
/// pausable.  The backend port outside the library implements it.
pub trait AudioStream {
    fn start(&self) -> Result<(), AudioError>;

    fn stop(&self) -> Result<(), AudioError>;
}

/// Truncating division (toward zero) for a non-negative divisor, as the
/// machine divides.
pub open spec fn div_trunc(a: int, b: int) -> int {
    if a >= 0 {
        a / b
    } else {
        -((-a) / b)
    }
}

/// A signed 16-bit backend sample scaled to fixed point: `v / 32767` of
/// full scale.
pub open spec fn spec_sample_from_i16(v: i16) -> int {
    div_trunc((v as int) * (crate::meter::SAMPLE_UNIT as int), 32767)
}

/// An unsigned 16-bit backend sample centred and scaled to fixed point:
/// `(v - 32768) / 32768` of full scale.
pub open spec fn spec_sample_from_u16(v: u16) -> int {
    div_trunc(((v as int) - 32768) * (crate::meter::SAMPLE_UNIT as int), 32768)
}

pub fn sample_from_i16(v: i16) -> (r: i32)
    ensures
        r as int == spec_sample_from_i16(v),
{
    if v >= 0 {
        proof {
            lemma_mul_inequality(v as int, 32767, 1_000_000);
            lemma_div_is_ordered((v as int) * 1_000_000, 32767int * 1_000_000, 32767);
            lemma_div_by_multiple(1_000_000, 32767);
        }
        (((v as i64) * (crate::meter::SAMPLE_UNIT as i64)) / 32767) as i32
    } else {
        let neg: i64 = -(v as i64);
        proof {
            lemma_mul_inequality(neg as int, 32768, 1_000_000);
            lemma_div_is_ordered((neg as int) * 1_000_000, 32768int * 1_000_000, 32767);
        }
        (-((neg * (crate::meter::SAMPLE_UNIT as i64)) / 32767)) as i32
    }
}

pub fn normalize_u16_sample(v: u16) -> (r: i32)
    ensures
        r as int == spec_sample_from_u16(v),
{
    if v >= 32768 {
        let pos: i64 = (v as i64) - 32768;
        proof {
            lemma_mul_inequality(pos as int, 32767, 1_000_000);
            lemma_div_is_ordered((pos as int) * 1_000_000, 32767int * 1_000_000, 32768);
        }
        ((pos * (crate::meter::SAMPLE_UNIT as i64)) / 32768) as i32
    } else {
        let neg: i64 = 32768 - (v as i64);
        proof {
            lemma_mul_inequality(neg as int, 32768, 1_000_000);
            lemma_div_is_ordered((neg as int) * 1_000_000, 32768int * 1_000_000, 32768);
            lemma_div_by_multiple(1_000_000, 32768);
        }
        (-((neg * (crate::meter::SAMPLE_UNIT as i64)) / 32768)) as i32
    }
}

/// The position of the device with the given id in a refreshed device
/// list, if present: how `select_device` finds its device.
pub fn find_device(devices: &Vec<AudioDevice>, device_id: &str) -> (r: Option<usize>)
    ensures
        match r {
            Some(i) => i < devices@.len() && devices@[i as int].id@ == device_id@,
            None => forall|i: int| 0 <= i < devices@.len() ==> devices@[i].id@ != device_id@,
        },
{
    let n = devices.len();
    let mut i: usize = 0;
    while i < n
        invariant
            n == devices@.len(),
            i <= n,
            forall|k: int| 0 <= k < i ==> devices@[k].id@ != device_id@,
        decreases n - i,
    {
        if crate::text::str_eq(devices[i].id.as_str(), device_id) {
            return Some(i);
        }
        i = i + 1;
    }
    None
}

fn duplicate_device(d: &AudioDevice) -> (r: AudioDevice)
    ensures
        r == *d,
{
    AudioDevice {
        id: d.id.clone(),
        name: d.name.clone(),
        sample_rate: d.sample_rate,
        channels: d.channels,
    }
}

/// The capture lifecycle's decisions: the refreshed device list, the
/// selected device, and whether the stream runs.  The backend that
/// enumerates devices and builds the real stream lives outside the
/// library; it hands this service the refreshed list and its default
/// device, opens the stream exactly when `start` says so (resetting the
/// level meter first), and closes it when `stop` does.
pub struct AudioCaptureService {
    devices: Vec<AudioDevice>,
    selected: Option<AudioDevice>,
    running: bool,
}

impl AudioCaptureService {
    pub closed spec fn spec_devices(self) -> Seq<AudioDevice> {
        self.devices@
    }

    pub closed spec fn spec_selected(self) -> Option<AudioDevice> {
        self.selected
    }

    pub closed spec fn spec_running(self) -> bool {
        self.running
    }

    pub fn new() -> (r: Self)
        ensures
            r.spec_devices() =~= Seq::<AudioDevice>::empty(),
            r.spec_selected() is None,
            !r.spec_running(),
    {
        AudioCaptureService { devices: Vec::new(), selected: None, running: false }
    }

    /// Replaces the device list with a fresh enumeration.
    pub fn refresh_devices(&mut self, devices: Vec<AudioDevice>)
        ensures
            final(self).spec_devices() == devices@,
            final(self).spec_selected() == old(self).spec_selected(),
            final(self).spec_running() == old(self).spec_running(),
    {
        self.devices = devices;
    }

    pub fn devices(&self) -> (r: &Vec<AudioDevice>)
        ensures
            r@ == self.spec_devices(),
    {
        &self.devices
    }

    /// Selects a device from the refreshed list by id; an unknown id is
    /// `DeviceNotFound` and changes nothing.
    pub fn select_device(&mut self, device_id: &str) -> (r: Result<(), AudioError>)
        ensures
            (r is Ok) <==> (exists|i: int|
                0 <= i < old(self).spec_devices().len()
                    && (#[trigger] old(self).spec_devices()[i].id@) == device_id@),
            r is Ok ==> (final(self).spec_selected() matches Some(d) && d.id@ == device_id@ && (
            exists|i: int|
                0 <= i < old(self).spec_devices().len() && #[trigger] old(self).spec_devices()[i]
                    == d)),
            r matches Err(e) ==> e is DeviceNotFound && *final(self) == *old(self),
            final(self).spec_devices() == old(self).spec_devices(),
            final(self).spec_running() == old(self).spec_running(),
    {
        match find_device(&self.devices, device_id) {
            Some(i) => {
                let d = duplicate_device(&self.devices[i]);
                proof {
                    assert(0 <= i < old(self).spec_devices().len() && old(
                        self,
                    ).spec_devices()[i as int].id@ == device_id@);
                    assert(old(self).spec_devices()[i as int] == d);
                }
                self.selected = Some(d);
                Ok(())
            },
            None => Err(AudioError::DeviceNotFound),
        }
    }

    pub fn selected_device(&self) -> (r: Option<&AudioDevice>)
        ensures
            match r {
                Some(d) => self.spec_selected() matches Some(x) && *d == x,
                None => self.spec_selected() is None,
            },
    {
        match &self.selected {
            Some(d) => Some(d),
            None => None,
        }
    }

    pub fn is_running(&self) -> (r: bool)
        ensures
            r == self.spec_running(),
    {
        self.running
    }

    /// Decides a stream start: refuses while one runs; otherwise the
    /// selected device — or, when none is selected, the backend's default,
    /// which is then memoized — is the device to open, and the service
    /// counts as running.  Without either device: `NoInputDevice`.
    pub fn start(&mut self, default_device: Option<AudioDevice>) -> (r: Result<
        AudioDevice,
        AudioError,
    >)
        ensures
            old(self).spec_running() ==> (r matches Err(e) && e is AlreadyRunning && *final(self)
                == *old(self)),
            !old(self).spec_running() ==> match old(self).spec_selected() {
                Some(d) => r matches Ok(got) && got == d && final(self).spec_selected() == Some(d)
                    && final(self).spec_running(),
                None => match default_device {
                    Some(d) => r matches Ok(got) && got == d && final(self).spec_selected()
                        == Some(d) && final(self).spec_running(),
                    None => r matches Err(e) && e is NoInputDevice && *final(self) == *old(self),
                },
            },
            final(self).spec_devices() == old(self).spec_devices(),
    {
        if self.running {
            return Err(AudioError::AlreadyRunning);
        }
        let device = match &self.selected {
            Some(d) => duplicate_device(d),
            None => match default_device {
                Some(d) => d,
                None => {
                    return Err(AudioError::NoInputDevice);
                },
            },
        };
        self.selected = Some(duplicate_device(&device));
        self.running = true;
        Ok(device)
    }

    /// Decides a stream stop: only a running stream can be paused.
    pub fn stop(&mut self) -> (r: Result<(), AudioError>)
        ensures
            old(self).spec_running() ==> (r is Ok && !final(self).spec_running()
                && final(self).spec_selected() == old(self).spec_selected()
                && final(self).spec_devices() == old(self).spec_devices()),
            !old(self).spec_running() ==> (r matches Err(e) && e is NotRunning && *final(self)
                == *old(self)),
    {
        if !self.running {
            return Err(AudioError::NotRunning);
        }
        self.running = false;
        Ok(())
    }
}

} // verus!
