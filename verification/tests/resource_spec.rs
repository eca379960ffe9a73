//! The textual form of `--rsc`.
use slurm_async_runner::entities::resource_spec::{
    Memory, MemoryUnit, ResourceSpec, ResourceSpecCPU, ResourceSpecGPU,
};
use slurm_async_runner::positive::PositiveU32;

fn nz(n: u32) -> PositiveU32 {
    PositiveU32::new(n).unwrap()
}

fn mem(value: u32, unit: MemoryUnit) -> Memory {
    Memory {
        value: nz(value),
        unit,
    }
}

#[test]
fn memory_parses_each_suffix() {
    assert_eq!("4K".parse::<Memory>().unwrap(), mem(4, MemoryUnit::Kilo));
    assert_eq!("4M".parse::<Memory>().unwrap(), mem(4, MemoryUnit::Mega));
    assert_eq!("8G".parse::<Memory>().unwrap(), mem(8, MemoryUnit::Giga));
    assert_eq!("1T".parse::<Memory>().unwrap(), mem(1, MemoryUnit::Tera));
}

#[test]
fn memory_unitless_defaults_to_mega() {
    assert_eq!(
        "1024".parse::<Memory>().unwrap(),
        mem(1024, MemoryUnit::Mega)
    );
}

#[test]
fn memory_display_round_trips() {
    for (raw, canonical) in [
        ("4K", "4K"),
        ("8G", "8G"),
        // unit-less input renders as `M`, which still re-parses
        ("1024", "1024M"),
    ] {
        let m: Memory = raw.parse().unwrap();
        assert_eq!(m.to_string(), canonical);
        let again: Memory = m.to_string().parse().unwrap();
        assert_eq!(m, again);
    }
}

#[test]
fn memory_rejects_zero() {
    assert!("0G".parse::<Memory>().is_err());
    assert!("0".parse::<Memory>().is_err());
}

#[test]
fn memory_rejects_unknown_suffix() {
    assert!("4X".parse::<Memory>().is_err());
    assert!("4g".parse::<Memory>().is_err()); // case-sensitive per KUDPC examples
}

#[test]
fn memory_rejects_empty_or_suffix_only() {
    assert!("".parse::<Memory>().is_err());
    assert!("G".parse::<Memory>().is_err());
}

#[test]
fn parses_kudpc_cpu_example() {
    let r: ResourceSpec = "p=4:t=8:c=8:m=8G".parse().unwrap();
    assert_eq!(
        r,
        ResourceSpec::CPU(ResourceSpecCPU {
            p: Some(nz(4)),
            t: Some(nz(8)),
            c: Some(nz(8)),
            m: Some(mem(8, MemoryUnit::Giga)),
        })
    );
    assert_eq!(r.to_string(), "p=4:t=8:c=8:m=8G");
}

#[test]
fn parses_cpu_spec_in_arbitrary_order() {
    let r: ResourceSpec = "m=56G:c=56:t=56:p=1".parse().unwrap();
    assert_eq!(
        r,
        ResourceSpec::CPU(ResourceSpecCPU {
            p: Some(nz(1)),
            t: Some(nz(56)),
            c: Some(nz(56)),
            m: Some(mem(56, MemoryUnit::Giga)),
        })
    );
    // Display always emits canonical order.
    assert_eq!(r.to_string(), "p=1:t=56:c=56:m=56G");
}

#[test]
fn parses_kudpc_gpu_example() {
    let r: ResourceSpec = "g=1".parse().unwrap();
    assert_eq!(r, ResourceSpec::GPU(ResourceSpecGPU { g: nz(1) }));
    assert_eq!(r.to_string(), "g=1");
}

#[test]
fn parses_unitless_memory_in_cpu_spec() {
    let r: ResourceSpec = "p=1:t=1:c=1:m=1024".parse().unwrap();
    if let ResourceSpec::CPU(c) = r {
        assert_eq!(c.m, Some(mem(1024, MemoryUnit::Mega)));
    } else {
        panic!("expected CPU variant");
    }
}

#[test]
fn resource_spec_rejects_empty_string() {
    assert!("".parse::<ResourceSpec>().is_err());
}

#[test]
fn rejects_mixed_cpu_and_gpu_keys() {
    assert!("p=1:t=1:c=1:m=1G:g=1".parse::<ResourceSpec>().is_err());
    assert!("g=1:p=1".parse::<ResourceSpec>().is_err());
}

#[test]
fn rejects_unknown_keys() {
    assert!("p=1:t=1:c=1:m=1G:x=1".parse::<ResourceSpec>().is_err());
}

#[test]
fn rejects_duplicate_keys() {
    assert!("p=1:p=2:t=1:c=1:m=1G".parse::<ResourceSpec>().is_err());
}

#[test]
fn rejects_zero_counts() {
    assert!("p=0:t=1:c=1:m=1G".parse::<ResourceSpec>().is_err());
    assert!("p=1:t=0:c=1:m=1G".parse::<ResourceSpec>().is_err());
    assert!("p=1:t=1:c=0:m=1G".parse::<ResourceSpec>().is_err());
    assert!("g=0".parse::<ResourceSpec>().is_err());
}

#[test]
fn rejects_zero_memory() {
    assert!("p=1:t=1:c=1:m=0G".parse::<ResourceSpec>().is_err());
}

#[test]
fn rejects_invalid_memory_unit() {
    assert!("p=1:t=1:c=1:m=1X".parse::<ResourceSpec>().is_err());
}

#[test]
fn rejects_missing_equals_in_token() {
    assert!("p1:t=1:c=1:m=1G".parse::<ResourceSpec>().is_err());
}

#[test]
fn rejects_empty_value() {
    assert!("p=:t=1:c=1:m=1G".parse::<ResourceSpec>().is_err());
    assert!("g=".parse::<ResourceSpec>().is_err());
}

#[test]
fn resource_spec_rejects_dangling_separator() {
    assert!("p=1:t=1:c=1:m=1G:".parse::<ResourceSpec>().is_err());
    assert!(":p=1:t=1:c=1:m=1G".parse::<ResourceSpec>().is_err());
}

#[test]
fn parses_kudpc_p60_t1_c1_example() {
    // From the KUDPC manual: an MPI 60-way partial CPU spec.
    let r: ResourceSpec = "p=60:t=1:c=1".parse().unwrap();
    assert_eq!(
        r,
        ResourceSpec::CPU(ResourceSpecCPU {
            p: Some(nz(60)),
            t: Some(nz(1)),
            c: Some(nz(1)),
            m: None,
        })
    );
    assert_eq!(r.to_string(), "p=60:t=1:c=1");
}

#[test]
fn parses_partial_cpu_spec_m_only() {
    let r: ResourceSpec = "m=8G".parse().unwrap();
    if let ResourceSpec::CPU(c) = r {
        assert_eq!(c.p, None);
        assert_eq!(c.t, None);
        assert_eq!(c.c, None);
        assert_eq!(c.m, Some(mem(8, MemoryUnit::Giga)));
    } else {
        panic!("expected CPU variant");
    }
}

#[test]
fn display_round_trips_partial_cpu() {
    let original = ResourceSpec::CPU(ResourceSpecCPU {
        p: Some(nz(60)),
        t: Some(nz(1)),
        c: Some(nz(1)),
        m: None,
    });
    let s = original.to_string();
    let parsed: ResourceSpec = s.parse().unwrap();
    assert_eq!(parsed, original);
}

#[test]
fn cpu_default_is_all_none_and_display_is_empty() {
    let r = ResourceSpec::CPU(ResourceSpecCPU::default());
    assert_eq!(r.to_string(), "");
}
