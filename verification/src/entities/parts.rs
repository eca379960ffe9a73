//! Values built from numbers and choices rather than from text.
use crate::entities::mail::{MailType, MailTypeInput};
use crate::entities::resource_spec;
use crate::entities::resource_spec::{
    CpuView, Memory, MemoryUnit, MemoryView, ResourceSpec, ResourceSpecCPU, ResourceSpecGPU,
    ResourceView,
};
use crate::entities::time_limit::JobTimeLimit;
use crate::error::SchemaFault;
use crate::positive::PositiveU32;
use vstd::prelude::*;

verus! {

/// A number that must be positive.
#[derive(Debug, Clone, Copy, PartialEq, Eq, Structural)]
pub enum Part {
    MemoryValue,
    P,
    T,
    C,
    G,
    Processes,
    Threads,
    Cores,
    Gpus,
    Seconds,
}

impl Part {
    /// How the number is called in a message.
    pub open spec fn name(self) -> Seq<char> {
        match self {
            Part::MemoryValue => "memory value"@,
            Part::P => "p"@,
            Part::T => "t"@,
            Part::C => "c"@,
            Part::G => "g"@,
            Part::Processes => "ResourceSpec/processes"@,
            Part::Threads => "ResourceSpec/threads"@,
            Part::Cores => "ResourceSpec/cores"@,
            Part::Gpus => "ResourceSpec/gpus"@,
            Part::Seconds => "seconds"@,
        }
    }

    /// How the number is called in a message.
    pub fn as_str(self) -> (r: &'static str)
        ensures
            r@ == self.name(),
    {
        match self {
            Part::MemoryValue => "memory value",
            Part::P => "p",
            Part::T => "t",
            Part::C => "c",
            Part::G => "g",
            Part::Processes => "ResourceSpec/processes",
            Part::Threads => "ResourceSpec/threads",
            Part::Cores => "ResourceSpec/cores",
            Part::Gpus => "ResourceSpec/gpus",
            Part::Seconds => "seconds",
        }
    }
}

/// Why a value cannot be built.
#[derive(Debug, Clone, Copy, PartialEq, Eq, Structural)]
pub enum BuildError {
    /// The number is zero.
    NotPositive(Part),
    /// GPUs were requested together with something else.
    MixedResources,
    /// A list of mail events is empty.
    NoMailTypes,
}

impl BuildError {
    /// The message for the error.
    pub open spec fn message(self) -> Seq<char> {
        match self {
            BuildError::NotPositive(part) => part.name() + " must be > 0"@,
            BuildError::MixedResources =>
                "CPU keys (processes/threads/cores/memory) and gpus are mutually exclusive — pass one group or the other"@,
            BuildError::NoMailTypes => "MailTypeInput requires at least one MailType"@,
        }
    }

    /// The message for the error.
    pub fn to_string(&self) -> (r: String)
        ensures
            r@ == self.message(),
    {
        match *self {
            BuildError::NotPositive(part) => {
                let mut out = part.as_str().to_owned();
                out.append(" must be > 0");
                out
            },
            BuildError::MixedResources =>
                "CPU keys (processes/threads/cores/memory) and gpus are mutually exclusive — pass one group or the other".to_owned(),
            BuildError::NoMailTypes => "MailTypeInput requires at least one MailType".to_owned(),
        }
    }
}

/// The number, where it is positive.
fn positive(n: u32, part: Part) -> (r: Result<PositiveU32, BuildError>)
    ensures
        match r {
            Ok(x) => n > 0 && x@ == n,
            Err(e) => n == 0 && e == BuildError::NotPositive(part),
        },
{
    match PositiveU32::new(n) {
        Some(x) => Ok(x),
        None => Err(BuildError::NotPositive(part)),
    }
}

/// The number, where there is one and it is positive.
fn opt_positive(n: Option<u32>, part: Part) -> (r: Result<Option<PositiveU32>, BuildError>)
    ensures
        match r {
            Ok(x) => n != Some(0u32) && resource_spec::opt_count(x) == n,
            Err(e) => n == Some(0u32) && e == BuildError::NotPositive(part),
        },
{
    match n {
        Some(n) => match positive(n, part) {
            Ok(x) => Ok(Some(x)),
            Err(e) => Err(e),
        },
        None => Ok(None),
    }
}

impl Memory {
    /// That many units.
    pub fn from_value(value: u32, unit: MemoryUnit) -> (r: Result<Memory, BuildError>)
        ensures
            match r {
                Ok(m) => value > 0 && m@ == (MemoryView { value, unit }),
                Err(e) => value == 0 && e == BuildError::NotPositive(Part::MemoryValue),
            },
    {
        match positive(value, Part::MemoryValue) {
            Ok(value) => Ok(Memory { value, unit }),
            Err(e) => Err(e),
        }
    }
}

impl JobTimeLimit {
    /// The limit of that many seconds.
    pub fn try_from_seconds(seconds: u32) -> (r: Result<JobTimeLimit, BuildError>)
        ensures
            match r {
                Ok(t) => seconds > 0 && t@ == seconds,
                Err(e) => seconds == 0 && e == BuildError::NotPositive(Part::Seconds),
            },
    {
        match positive(seconds, Part::Seconds) {
            Ok(seconds) => Ok(JobTimeLimit::from_seconds(seconds)),
            Err(e) => Err(e),
        }
    }
}

/// The first of three numbers that is zero.
pub open spec fn first_zero(p: u32, t: u32, c: u32) -> Option<Part> {
    if p == 0 {
        Some(Part::P)
    } else if t == 0 {
        Some(Part::T)
    } else if c == 0 {
        Some(Part::C)
    } else {
        None
    }
}

impl ResourceSpecCPU {
    /// A request that leaves nothing to the system's default.
    pub fn new(p: u32, t: u32, c: u32, m: Memory) -> (r: Result<ResourceSpecCPU, BuildError>)
        ensures
            match r {
                Ok(x) => first_zero(p, t, c) is None && x@ == (CpuView {
                    p: Some(p),
                    t: Some(t),
                    c: Some(c),
                    m: Some(m@),
                }),
                Err(e) => first_zero(p, t, c) is Some && e == BuildError::NotPositive(
                    first_zero(p, t, c)->0,
                ),
            },
    {
        let p = match positive(p, Part::P) {
            Ok(x) => x,
            Err(e) => {
                return Err(e);
            },
        };
        let t = match positive(t, Part::T) {
            Ok(x) => x,
            Err(e) => {
                return Err(e);
            },
        };
        let c = match positive(c, Part::C) {
            Ok(x) => x,
            Err(e) => {
                return Err(e);
            },
        };
        Ok(ResourceSpecCPU { p: Some(p), t: Some(t), c: Some(c), m: Some(m) })
    }
}

impl ResourceSpecGPU {
    /// A request for that many GPUs.
    pub fn new(g: u32) -> (r: Result<ResourceSpecGPU, BuildError>)
        ensures
            match r {
                Ok(x) => g > 0 && x.g@ == g,
                Err(e) => g == 0 && e == BuildError::NotPositive(Part::G),
            },
    {
        match positive(g, Part::G) {
            Ok(g) => Ok(ResourceSpecGPU { g }),
            Err(e) => Err(e),
        }
    }
}

/// The request that the keys make: GPUs alone, or any of the rest. A count of zero is
/// reported before a mixture, and of several the first in the order of the keys.
pub open spec fn request_of(
    processes: Option<u32>,
    threads: Option<u32>,
    cores: Option<u32>,
    memory: Option<MemoryView>,
    gpus: Option<u32>,
) -> Result<ResourceView, BuildError> {
    if processes == Some(0u32) {
        Err(BuildError::NotPositive(Part::Processes))
    } else if threads == Some(0u32) {
        Err(BuildError::NotPositive(Part::Threads))
    } else if cores == Some(0u32) {
        Err(BuildError::NotPositive(Part::Cores))
    } else if gpus == Some(0u32) {
        Err(BuildError::NotPositive(Part::Gpus))
    } else {
        match gpus {
            None => Ok(
                ResourceView::CPU(CpuView { p: processes, t: threads, c: cores, m: memory }),
            ),
            Some(g) => if processes is Some || threads is Some || cores is Some || memory is Some {
                Err(BuildError::MixedResources)
            } else {
                Ok(ResourceView::GPU { g })
            },
        }
    }
}

impl ResourceSpec {
    /// The request that the keys make. Without any key it requests nothing.
    pub fn from_keys(
        processes: Option<u32>,
        threads: Option<u32>,
        cores: Option<u32>,
        memory: Option<Memory>,
        gpus: Option<u32>,
    ) -> (r: Result<ResourceSpec, BuildError>)
        ensures
            match r {
                Ok(x) => request_of(
                    processes,
                    threads,
                    cores,
                    resource_spec::opt_memory(memory),
                    gpus,
                ) == Ok::<ResourceView, BuildError>(x@),
                Err(e) => request_of(
                    processes,
                    threads,
                    cores,
                    resource_spec::opt_memory(memory),
                    gpus,
                ) == Err::<ResourceView, BuildError>(e),
            },
    {
        let p = match opt_positive(processes, Part::Processes) {
            Ok(x) => x,
            Err(e) => {
                return Err(e);
            },
        };
        let t = match opt_positive(threads, Part::Threads) {
            Ok(x) => x,
            Err(e) => {
                return Err(e);
            },
        };
        let c = match opt_positive(cores, Part::Cores) {
            Ok(x) => x,
            Err(e) => {
                return Err(e);
            },
        };
        let g = match opt_positive(gpus, Part::Gpus) {
            Ok(x) => x,
            Err(e) => {
                return Err(e);
            },
        };
        match g {
            None => Ok(ResourceSpec::CPU(ResourceSpecCPU { p, t, c, m: memory })),
            Some(g) => if p.is_some() || t.is_some() || c.is_some() || memory.is_some() {
                Err(BuildError::MixedResources)
            } else {
                Ok(ResourceSpec::GPU(ResourceSpecGPU { g }))
            },
        }
    }

    /// `cpu` or `gpu`.
    pub fn kind(&self) -> (r: &'static str)
        ensures
            r@ == match self@ {
                ResourceView::CPU(_) => "cpu"@,
                ResourceView::GPU { .. } => "gpu"@,
            },
    {
        match self {
            ResourceSpec::CPU(_) => "cpu",
            ResourceSpec::GPU(_) => "gpu",
        }
    }

    /// The request, where it is one for CPUs.
    pub fn cpu_spec(&self) -> (r: Option<&ResourceSpecCPU>)
        ensures
            match r {
                Some(c) => *self == ResourceSpec::CPU(*c),
                None => self is GPU,
            },
    {
        match self {
            ResourceSpec::CPU(c) => Some(c),
            ResourceSpec::GPU(_) => None,
        }
    }

    /// The request, where it is one for GPUs.
    pub fn gpu_spec(&self) -> (r: Option<&ResourceSpecGPU>)
        ensures
            match r {
                Some(g) => *self == ResourceSpec::GPU(*g),
                None => self is CPU,
            },
    {
        match self {
            ResourceSpec::CPU(_) => None,
            ResourceSpec::GPU(g) => Some(g),
        }
    }
}

impl MailTypeInput {
    /// The events, of which there must be one.
    pub fn new(types: Vec<MailType>) -> (r: Result<MailTypeInput, BuildError>)
        ensures
            match r {
                Ok(x) => types@.len() > 0 && x@ == types@,
                Err(e) => types@.len() == 0 && e == BuildError::NoMailTypes,
            },
    {
        if types.len() == 0 {
            return Err(BuildError::NoMailTypes);
        }
        Ok(MailTypeInput::from_types(types))
    }
}

/// What the keys make reads back from its text, unless it requests nothing.
pub proof fn law_built_request_round_trip(
    processes: Option<u32>,
    threads: Option<u32>,
    cores: Option<u32>,
    memory: Option<MemoryView>,
    gpus: Option<u32>,
)
    requires
        memory is Some ==> memory->0.value > 0,
        processes is Some || threads is Some || cores is Some || memory is Some || gpus is Some,
    ensures
        request_of(processes, threads, cores, memory, gpus) matches Ok(x) ==> ResourceView::parsed(
            x.text(),
        ) == Ok::<ResourceView, SchemaFault>(x),
{
    if let Ok(x) = request_of(processes, threads, cores, memory, gpus) {
        resource_spec::law_resource_spec_round_trip(x);
    }
}

/// A request by keys is made of what the keys say: GPUs alone, or any of the rest. A count
/// of zero is refused, and so are GPUs together with anything else.
pub proof fn law_requests_by_keys(
    processes: Option<u32>,
    threads: Option<u32>,
    cores: Option<u32>,
    memory: Option<Memory>,
    gpus: Option<u32>,
    r: Result<ResourceSpec, BuildError>,
)
    requires
        call_ensures(ResourceSpec::from_keys, (processes, threads, cores, memory, gpus), r),
    ensures
        ({
            let cpu = processes is Some || threads is Some || cores is Some || memory is Some;
            let zero = processes == Some(0u32) || threads == Some(0u32) || cores == Some(0u32)
                || gpus == Some(0u32);
            &&& r is Ok <==> !zero && !(gpus is Some && cpu)
            &&& r matches Ok(ResourceSpec::GPU(x)) ==> gpus == Some(x.g@)
            &&& r matches Ok(ResourceSpec::CPU(x)) ==> gpus is None && resource_spec::opt_count(x.p)
                == processes && resource_spec::opt_count(x.t) == threads
                && resource_spec::opt_count(x.c) == cores && resource_spec::opt_memory(x.m)
                == resource_spec::opt_memory(memory)
            &&& r matches Err(e) ==> if zero {
                e matches BuildError::NotPositive(part) && match part {
                    Part::Processes => processes == Some(0u32),
                    Part::Threads => threads == Some(0u32) && processes != Some(0u32),
                    Part::Cores => cores == Some(0u32) && threads != Some(0u32) && processes
                        != Some(0u32),
                    Part::Gpus => gpus == Some(0u32) && cores != Some(0u32) && threads != Some(
                        0u32,
                    ) && processes != Some(0u32),
                    _ => false,
                }
            } else {
                e == BuildError::MixedResources
            }
        }),
{
}

/// Values built from numbers hold these numbers; a zero, or no mail event, is refused.
pub proof fn law_built_values(
    value: u32,
    unit: MemoryUnit,
    memory: Result<Memory, BuildError>,
    seconds: u32,
    limit: Result<JobTimeLimit, BuildError>,
    g: u32,
    gpu: Result<ResourceSpecGPU, BuildError>,
    types: Vec<MailType>,
    mail: Result<MailTypeInput, BuildError>,
)
    requires
        call_ensures(Memory::from_value, (value, unit), memory),
        call_ensures(JobTimeLimit::try_from_seconds, (seconds,), limit),
        call_ensures(ResourceSpecGPU::new, (g,), gpu),
        call_ensures(MailTypeInput::new, (types,), mail),
    ensures
        memory is Ok <==> value > 0,
        memory matches Ok(m) ==> m@.value == value && m@.unit == unit,
        limit is Ok <==> seconds > 0,
        limit matches Ok(t) ==> t@ == seconds,
        gpu is Ok <==> g > 0,
        gpu matches Ok(x) ==> x.g@ == g,
        mail is Ok <==> types@.len() > 0,
        mail matches Ok(x) ==> x@ == types@,
{
}

/// A full request for CPUs holds the numbers, and the first zero among them is refused.
pub proof fn law_built_cpu_requests(
    p: u32,
    t: u32,
    c: u32,
    m: Memory,
    r: Result<ResourceSpecCPU, BuildError>,
)
    requires
        call_ensures(ResourceSpecCPU::new, (p, t, c, m), r),
    ensures
        r is Ok <==> p > 0 && t > 0 && c > 0,
        r matches Ok(x) ==> resource_spec::opt_count(x.p) == Some(p) && resource_spec::opt_count(
            x.t,
        ) == Some(t) && resource_spec::opt_count(x.c) == Some(c) && resource_spec::opt_memory(x.m)
            == Some(m@),
        p == 0 ==> r == Err::<ResourceSpecCPU, BuildError>(BuildError::NotPositive(Part::P)),
        p > 0 && t == 0 ==> r == Err::<ResourceSpecCPU, BuildError>(
            BuildError::NotPositive(Part::T),
        ),
        p > 0 && t > 0 && c == 0 ==> r == Err::<ResourceSpecCPU, BuildError>(
            BuildError::NotPositive(Part::C),
        ),
{
    if let Ok(x) = r {
        assert(x@.p == Some(p) && x@.t == Some(t) && x@.c == Some(c) && x@.m == Some(m@));
    }
}

/// The message of a value that cannot be built names the number that must be positive, the
/// mixture, or the empty list.
pub proof fn law_build_messages(e: BuildError, r: String)
    requires
        call_ensures(BuildError::to_string, (&e,), r),
    ensures
        e matches BuildError::NotPositive(part) ==> r@ == (match part {
            Part::MemoryValue => "memory value"@,
            Part::P => "p"@,
            Part::T => "t"@,
            Part::C => "c"@,
            Part::G => "g"@,
            Part::Processes => "ResourceSpec/processes"@,
            Part::Threads => "ResourceSpec/threads"@,
            Part::Cores => "ResourceSpec/cores"@,
            Part::Gpus => "ResourceSpec/gpus"@,
            Part::Seconds => "seconds"@,
        }) + " must be > 0"@,
        e == BuildError::NoMailTypes ==> r@ == "MailTypeInput requires at least one MailType"@,
{
}

} // verus!
