use hyperv_virtiofs::handle::{Device, DeviceHandle, DeviceSlots};
use hyperv_virtiofs::mem::{
    plan_access, ram_size_to_max_gpa, shard_index, Access, AccessError, AccessPlan, Acquire,
    ApertureRequest, Counter, HdvApertureMem, Shard, Stats, APERTURE_MAX, MAX_ENTRIES, PAGE,
    PER_SHARD_MAX, SHARDS,
};
use hyperv_virtiofs::page_hash::{PageHashBuilder, PageHasher};

const QUOTA: i32 = 0x8007_0718u32 as i32;

fn bound() -> (DeviceSlots, DeviceHandle) {
    let mut slots = DeviceSlots::new();
    let handle = DeviceHandle::new(&mut slots);
    handle.set(&mut slots, Device(6));
    (slots, handle)
}

#[test]
fn shard_evicts_lru_past_cap() {
    let mut shard: Shard<u64> = Shard::new();
    let mut stats = Stats::new(false);
    for i in 0..PER_SHARD_MAX as u64 {
        shard.insert((i * PAGE, PAGE), i, &mut stats);
    }
    assert_eq!(shard.lookup((0, PAGE)), Some(0));
    shard.insert((4096 * PAGE, PAGE), 4096, &mut stats);
    assert_eq!(shard.len(), PER_SHARD_MAX);
    assert!(shard.contains_key((0, PAGE)), "refreshed entry must survive");
    assert!(!shard.contains_key((PAGE, PAGE)), "LRU entry must be evicted");
    assert!(shard.contains_key((4096 * PAGE, PAGE)));
}

#[test]
fn page_hasher_spreads_consecutive_pages() {
    let hashes: std::collections::HashSet<u64> = (0..1024)
        .map(|i| PageHashBuilder.hash_one((i * PAGE, PAGE)))
        .collect();
    assert_eq!(hashes.len(), 1024);
}

#[test]
fn page_hash_has_its_values() {
    let mut h = PageHasher(0);
    h.write_u64(1);
    assert_eq!(h.finish(), 0x9E37_79B9_7F4A_7C15 ^ 0x9E37_79B9);
    let mut a = PageHasher(7);
    a.write(&[1, 2]);
    let mut b = PageHasher(7);
    b.write_u64(1);
    b.write_u64(2);
    assert_eq!(a.finish(), b.finish());
    assert_eq!(PageHashBuilder.build_hasher().finish(), 0);
}

#[test]
fn insert_replaces_a_range_that_is_cached() {
    let mut shard: Shard<u64> = Shard::new();
    let mut stats = Stats::new(false);
    shard.insert((0, PAGE), 1, &mut stats);
    shard.insert((PAGE, PAGE), 2, &mut stats);
    shard.insert((0, PAGE), 3, &mut stats);
    assert_eq!(shard.len(), 2);
    assert_eq!(shard.lookup((0, PAGE)), Some(3));
}

#[test]
fn a_miss_creates_and_then_hits() {
    let mut shard: Shard<u64> = Shard::new();
    let mut stats = Stats::new(true);
    assert_eq!(shard.lookup((0, PAGE)), None);
    let request = match shard.get_or_create(0, PAGE, &mut stats) {
        Acquire::Create(r) => r,
        _ => panic!("nothing is cached"),
    };
    assert_eq!(request, ApertureRequest { base: 0, len: PAGE, evictions: 0 });
    assert_eq!(request.byte_count(), 4096);
    match shard.created(request, Ok(42), &mut stats) {
        Acquire::Ready(42) => {}
        _ => panic!("the mapping was made"),
    }
    match shard.get_or_create(0, PAGE, &mut stats) {
        Acquire::Ready(42) => {}
        _ => panic!("the mapping is cached"),
    }
    assert_eq!(shard.lookup((0, PAGE)), Some(42));
    assert_eq!((stats.creates, stats.hits, stats.live, stats.peak_live), (1, 1, 1, 1));
    assert_eq!(stats.max_span, PAGE);
}

#[test]
fn quota_retries_drop_the_oldest_and_end() {
    let mut shard: Shard<u64> = Shard::new();
    let mut stats = Stats::new(true);
    stats.live = 3;
    for i in 0..3 {
        shard.insert((i * PAGE, PAGE), i, &mut stats);
    }
    let mut request = match shard.get_or_create(9 * PAGE, PAGE, &mut stats) {
        Acquire::Create(r) => r,
        _ => panic!("not cached"),
    };
    for n in 1..=3usize {
        request = match shard.created(request, Err(QUOTA), &mut stats) {
            Acquire::Create(r) => r,
            _ => panic!("there is something to drop"),
        };
        assert_eq!(request.evictions, n);
        assert_eq!(shard.len(), 3 - n);
        assert!(!shard.contains_key(((n as u64 - 1) * PAGE, PAGE)));
    }
    match shard.created(request, Err(QUOTA), &mut stats) {
        Acquire::Failed(QUOTA) => {}
        _ => panic!("nothing is left to drop"),
    }
    assert_eq!((stats.quota_retries, stats.evicts, stats.create_fails), (3, 3, 1));
    assert_eq!(stats.live, 0);
}

#[test]
fn a_hit_keeps_every_mapping() {
    let mut shard: Shard<u64> = Shard::new();
    let mut stats = Stats::new(false);
    for i in 0..4 {
        shard.insert((i * PAGE, PAGE), i, &mut stats);
    }
    shard.insert((0, 2 * PAGE), 9, &mut stats);
    assert_eq!(shard.lookup((PAGE, PAGE)), Some(1));
    assert_eq!(shard.lookup((0, 2 * PAGE)), Some(9));
    for i in 0..4 {
        assert_eq!(shard.lookup((i * PAGE, PAGE)), Some(i));
    }
    assert_eq!(shard.len(), 5);
}

#[test]
fn a_used_entry_is_evicted_last() {
    let mut shard: Shard<u64> = Shard::new();
    let mut stats = Stats::new(false);
    for i in 0..4 {
        shard.insert((i * PAGE, PAGE), i, &mut stats);
    }
    assert_eq!(shard.lookup((PAGE, PAGE)), Some(1));
    for gone in [0, 2, 3] {
        shard.evict_one(&mut stats);
        assert!(!shard.contains_key((gone * PAGE, PAGE)));
        assert!(shard.contains_key((PAGE, PAGE)));
    }
    shard.evict_one(&mut stats);
    assert_eq!(shard.len(), 0);
    shard.evict_one(&mut stats);
    assert_eq!(shard.len(), 0);
}

#[test]
fn other_failures_end_at_once() {
    let mut shard: Shard<u64> = Shard::new();
    let mut stats = Stats::new(true);
    shard.insert((0, PAGE), 1, &mut stats);
    let request = match shard.get_or_create(PAGE, PAGE, &mut stats) {
        Acquire::Create(r) => r,
        _ => panic!("not cached"),
    };
    match shard.created(request, Err(-5), &mut stats) {
        Acquire::Failed(-5) => {}
        _ => panic!("not a matter of quota"),
    }
    assert_eq!(shard.len(), 1);
    assert_eq!(stats.create_fails, 1);
}

#[test]
fn a_retry_past_the_bound_fails() {
    let mut shard: Shard<u64> = Shard::new();
    let mut stats = Stats::new(false);
    shard.insert((0, PAGE), 1, &mut stats);
    let request = ApertureRequest { base: PAGE, len: PAGE, evictions: PER_SHARD_MAX };
    assert!(matches!(shard.created(request, Err(QUOTA), &mut stats), Acquire::Failed(QUOTA)));
}

#[test]
fn requests_keep_the_cap_and_cache_what_they_give() {
    let mut shard: Shard<u64> = Shard::new();
    let mut stats = Stats::new(true);
    for i in 0..PER_SHARD_MAX as u64 {
        shard.insert((i * PAGE, PAGE), i, &mut stats);
    }
    let long = 1 << 33;
    let answers = vec![Err(QUOTA), Err(QUOTA), Ok(77), Ok(78)];
    match shard.get_or_create_with(0, long, answers, &mut stats) {
        Acquire::Ready(77) => {}
        _ => panic!("made at the third call"),
    }
    assert_eq!(shard.len(), PER_SHARD_MAX - 2);
    assert_eq!(shard.lookup((0, long)), Some(77));
    assert!(!shard.contains_key((2 * PAGE, PAGE)));
    assert!(shard.contains_key((3 * PAGE, PAGE)));
    match shard.get_or_create_with(0, long, vec![Ok(1)], &mut stats) {
        Acquire::Ready(77) => {}
        _ => panic!("cached"),
    }
    assert_eq!(shard.len(), PER_SHARD_MAX - 2);
    match shard.get_or_create_with(1, PAGE, vec![Err(-5), Ok(1)], &mut stats) {
        Acquire::Failed(-5) => {}
        _ => panic!("refused"),
    }
    assert!(matches!(
        shard.get_or_create_with(1, PAGE, vec![Err(QUOTA)], &mut stats),
        Acquire::Create(q) if q.evictions == 1
    ));
    assert_eq!(shard.len(), PER_SHARD_MAX - 3);
    assert_eq!((stats.creates, stats.quota_retries, stats.create_fails), (1, 3, 1));
}

#[test]
fn the_host_call_maps_the_whole_range() {
    let r = ApertureRequest { base: 0, len: 0x8000_1000, evictions: 0 };
    assert_eq!(r.byte_count(), 0x8000_1000);
    let r = ApertureRequest { base: 0, len: APERTURE_MAX, evictions: 0 };
    assert_eq!(r.byte_count(), u32::MAX);
}

#[test]
fn a_span_that_one_aperture_does_not_map_is_denied() {
    let max = 1 << 40;
    assert_eq!(
        plan_access(max, 0x10, 0xffff_eff0),
        Ok(AccessPlan { base: 0, span: 0xffff_f000, offset: 0x10 })
    );
    assert_eq!(plan_access(max, 0x10, 0xffff_eff1), Err(AccessError::BadRange));
    assert_eq!(plan_access(max, 0, 1 << 32), Err(AccessError::BadRange));
    assert_eq!(plan_access(u64::MAX, 0, usize::MAX), Err(AccessError::BadRange));
    let (slots, handle) = bound();
    let mut mem: HdvApertureMem<u64> = HdvApertureMem::new(handle, 1 << 40, true);
    assert!(matches!(
        mem.with_mapping(&slots, 0, 1 << 32),
        Access::Denied(AccessError::BadRange)
    ));
    assert_eq!(mem.stats.bad_range, 1);
    assert!(mem.shards.iter().all(|s| s.len() == 0));
}

#[test]
fn plans_cover_the_pages() {
    let max = ram_size_to_max_gpa(1 << 30);
    assert_eq!(max, (4 << 30) + (1 << 30));
    assert_eq!(
        plan_access(max, 0x1234, 0x10),
        Ok(AccessPlan { base: 0x1000, span: 0x1000, offset: 0x234 })
    );
    assert_eq!(
        plan_access(max, 0x1fff, 2),
        Ok(AccessPlan { base: 0x1000, span: 0x2000, offset: 0xfff })
    );
    assert_eq!(
        plan_access(max, 0x1000, 0x1000),
        Ok(AccessPlan { base: 0x1000, span: 0x1000, offset: 0 })
    );
    assert_eq!(
        plan_access(max, 0x1000, 0),
        Ok(AccessPlan { base: 0x1000, span: 0, offset: 0 })
    );
    assert_eq!(plan_access(max, max - 1, 1).unwrap().span, 0x1000);
    assert_eq!(plan_access(max, max, 1), Err(AccessError::BadRange));
    assert_eq!(plan_access(max, u64::MAX, 2), Err(AccessError::BadRange));
    assert_eq!(
        plan_access(0x1800, 0x1700, 0x10),
        Ok(AccessPlan { base: 0x1000, span: 0x800, offset: 0x700 })
    );
    assert_eq!(
        plan_access(u64::MAX, u64::MAX - 1, 1),
        Ok(AccessPlan { base: u64::MAX - 0xfff, span: 0xfff, offset: 0xffe })
    );
}

#[test]
fn ram_ceiling_saturates() {
    assert_eq!(ram_size_to_max_gpa(0), 4 << 30);
    assert_eq!(ram_size_to_max_gpa(u64::MAX), u64::MAX);
}

#[test]
fn pages_spread_over_the_shards() {
    for page in 0..64u64 {
        assert_eq!(shard_index(page * PAGE), (page % 16) as usize);
    }
    assert_eq!(SHARDS * PER_SHARD_MAX, MAX_ENTRIES);
}

#[test]
fn access_denials_are_told_apart() {
    let mut slots = DeviceSlots::new();
    let handle = DeviceHandle::new(&mut slots);
    let mut mem: HdvApertureMem<u64> = HdvApertureMem::new(handle, 1 << 20, true);
    assert!(matches!(mem.with_mapping(&slots, 0, 4), Access::Denied(AccessError::NotBound)));
    handle.set(&mut slots, Device(6));
    let past = mem.max_address;
    assert!(matches!(mem.with_mapping(&slots, past, 4), Access::Denied(AccessError::BadRange)));
    let request = match mem.with_mapping(&slots, 0x10, 4) {
        Access::Create(r) => r,
        _ => panic!("not cached"),
    };
    assert!(matches!(
        mem.mapping_created(request, Err(-9)),
        Access::Denied(AccessError::ApertureFailed(-9))
    ));
    let s = mem.final_stats().unwrap();
    assert_eq!((s.not_bound, s.bad_range, s.create_fails), (1, 1, 1));
}

#[test]
fn access_maps_once_and_hits_after() {
    let (slots, handle) = bound();
    let mut mem: HdvApertureMem<u64> = HdvApertureMem::new(handle, 1 << 20, true);
    let request = match mem.with_mapping(&slots, 0x5010, 4) {
        Access::Create(r) => r,
        _ => panic!("not cached"),
    };
    assert_eq!((request.aperture.base, request.aperture.len, request.offset), (0x5000, 0x1000, 0x10));
    assert_eq!(request.device, Device(6));
    match mem.mapping_created(request, Ok(7)) {
        Access::Mapped { ap: 7, offset: 0x10 } => {}
        _ => panic!("mapped"),
    }
    match mem.with_mapping(&slots, 0x5800, 8) {
        Access::Mapped { ap: 7, offset: 0x800 } => {}
        _ => panic!("cached"),
    }
    assert_eq!(mem.shards[5].len(), 1);
    assert_eq!((mem.stats.hits, mem.stats.creates, mem.stats.live), (1, 1, 1));
}

#[test]
fn the_cache_stays_within_its_bound() {
    let (slots, handle) = bound();
    let mut mem: HdvApertureMem<u64> = HdvApertureMem::new(handle, 1 << 40, true);
    for page in 0..3 * MAX_ENTRIES as u64 {
        if let Access::Create(r) = mem.with_mapping(&slots, page * PAGE, 1) {
            mem.mapping_created(r, Ok(page));
        }
    }
    let total: usize = mem.shards.iter().map(|s| s.len()).sum();
    assert_eq!(total, MAX_ENTRIES);
    assert_eq!(mem.stats.live, MAX_ENTRIES);
    assert_eq!(mem.stats.evicts, 2 * MAX_ENTRIES as u64);
}

#[test]
fn summaries_are_due_by_count_or_by_clock() {
    let (_, handle) = bound();
    let mut mem: HdvApertureMem<u64> = HdvApertureMem::new(handle, 0, true);
    let mut due = 0;
    for _ in 0..4096 {
        if mem.maybe_emit_stats(0) {
            due += 1;
        }
    }
    assert_eq!(due, 1);
    assert!(!mem.maybe_emit_stats(499));
    assert!(mem.maybe_emit_stats(500));
    assert!(!mem.maybe_emit_stats(999));
    assert!(mem.maybe_emit_stats(1000));
    let mut off: HdvApertureMem<u64> = HdvApertureMem::new(handle, 0, false);
    assert!(!off.maybe_emit_stats(10_000));
    assert_eq!(off.stats.ops, 0);
    assert!(off.final_stats().is_none());
}

#[test]
fn disabled_counters_do_not_move() {
    let mut s = Stats::new(false);
    s.count(Counter::Hits);
    s.inc_live();
    s.dec_live();
    assert_eq!(s, Stats::new(false));
    let mut s = Stats::new(true);
    s.hits = u64::MAX;
    s.count(Counter::Hits);
    assert_eq!(s.hits, 0);
}

#[test]
fn access_errors_have_their_texts() {
    assert_eq!(AccessError::NotBound.message(), "HDV device handle not bound yet");
    assert_eq!(
        AccessError::BadRange.message(),
        "guest access range overflows or exceeds guest RAM"
    );
    assert_eq!(
        AccessError::ApertureFailed(QUOTA).message(),
        "HdvCreateGuestMemoryAperture failed: HRESULT 0x80070718"
    );
    assert_eq!(
        AccessError::ApertureFailed(5).message(),
        "HdvCreateGuestMemoryAperture failed: HRESULT 0x00000005"
    );
}
