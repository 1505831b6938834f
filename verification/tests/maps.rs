use kernel_ebpf::ebpf::consts::{BPF_ANY, BPF_EXIST, BPF_F_LOCK, BPF_NOEXIST};
use kernel_ebpf::ebpf::map::array::{element_addr, ArrayMap};
use kernel_ebpf::ebpf::map::hash::HashMap;
use kernel_ebpf::ebpf::map::internal::{BpfMap, InternalMapAttr};
use kernel_ebpf::ebpf::map::{
    bpf_map_close, bpf_map_create, bpf_map_delete_elem, bpf_map_get_attr, bpf_map_get_next_key,
    bpf_map_lookup_elem, bpf_map_ops, bpf_map_update_elem, BpfMapOp, MapAttr,
};
use kernel_ebpf::ebpf::retcode::BpfErrorCode;
use kernel_ebpf::ebpf::{bpf_allocate_fd, BpfObjects, BPF_FD_BASE};

fn attr(key_size: usize, value_size: usize, max_entries: usize) -> InternalMapAttr {
    InternalMapAttr { key_size, value_size, max_entries }
}

#[test]
fn array_scenario() {
    let mut objs = BpfObjects::new();
    let fd = bpf_map_create(
        &mut objs,
        MapAttr { map_type: 2, key_size: 4, value_size: 8, max_entries: 4 },
    )
    .unwrap() as u32;
    let key0 = 0u32.to_le_bytes();
    let mut value = 0x1122334455667788u64.to_le_bytes();
    assert_eq!(bpf_map_update_elem(&mut objs, fd, &key0, &mut value, 0, false), Ok(0));
    let mut out = [0u8; 8];
    assert_eq!(bpf_map_lookup_elem(&mut objs, fd, &key0, &mut out, 0, false), Ok(0));
    assert_eq!(u64::from_le_bytes(out), 0x1122334455667788);
    assert_eq!(
        bpf_map_delete_elem(&mut objs, fd, &key0, &mut out, 0, false),
        Err(BpfErrorCode::EINVAL)
    );
    let key4 = 4u32.to_le_bytes();
    assert_eq!(
        bpf_map_lookup_elem(&mut objs, fd, &key4, &mut out, 0, false),
        Err(BpfErrorCode::ENOENT)
    );
    assert_eq!(u64::from_le_bytes(out), 0x1122334455667788);
}

#[test]
fn hash_scenario() {
    let mut objs = BpfObjects::new();
    let fd = bpf_map_create(
        &mut objs,
        MapAttr { map_type: 1, key_size: 4, value_size: 4, max_entries: 2 },
    )
    .unwrap() as u32;
    let k = |n: u32| n.to_le_bytes();
    let mut v = |n: u32| n.to_le_bytes();
    assert_eq!(bpf_map_update_elem(&mut objs, fd, &k(1), &mut v(10), BPF_NOEXIST, false), Ok(0));
    assert_eq!(
        bpf_map_update_elem(&mut objs, fd, &k(1), &mut v(20), BPF_NOEXIST, false),
        Err(BpfErrorCode::EEXIST)
    );
    assert_eq!(bpf_map_update_elem(&mut objs, fd, &k(1), &mut v(30), BPF_ANY, false), Ok(0));
    let mut out = [0u8; 4];
    assert_eq!(bpf_map_lookup_elem(&mut objs, fd, &k(1), &mut out, 0, false), Ok(0));
    assert_eq!(u32::from_le_bytes(out), 30);
    assert_eq!(
        bpf_map_update_elem(&mut objs, fd, &k(2), &mut v(40), BPF_EXIST, false),
        Err(BpfErrorCode::ENOENT)
    );
    assert_eq!(bpf_map_update_elem(&mut objs, fd, &k(2), &mut v(40), BPF_NOEXIST, false), Ok(0));
    assert_eq!(
        bpf_map_update_elem(&mut objs, fd, &k(3), &mut v(50), BPF_NOEXIST, false),
        Err(BpfErrorCode::ENOMEM)
    );
}

#[test]
fn array_starts_zeroed_and_keeps_other_entries() {
    let mut map = ArrayMap::new(attr(4, 3, 5));
    let mut out = [9u8; 3];
    for i in 0..5u32 {
        assert_eq!(map.lookup(&i.to_le_bytes(), &mut out), Ok(0));
        assert_eq!(out, [0, 0, 0]);
    }
    assert_eq!(map.update(&2u32.to_le_bytes(), &[1, 2, 3], 0), Ok(0));
    assert_eq!(map.update(&4u32.to_le_bytes(), &[7, 8, 9], 77), Ok(0));
    for (i, want) in [[0, 0, 0], [0, 0, 0], [1, 2, 3], [0, 0, 0], [7, 8, 9]].iter().enumerate() {
        assert_eq!(map.lookup(&(i as u32).to_le_bytes(), &mut out), Ok(0));
        assert_eq!(&out, want);
    }
    assert_eq!(map.get_attr(), attr(4, 3, 5));
}

#[test]
fn array_refuses_buffers_of_the_wrong_size() {
    let mut map = ArrayMap::new(attr(4, 2, 2));
    let mut short = [5u8; 1];
    let mut out = [5u8; 2];
    assert_eq!(map.lookup(&[0, 0, 0, 0], &mut short), Err(BpfErrorCode::EINVAL));
    assert_eq!(short, [5]);
    assert_eq!(map.lookup(&[0, 0, 0], &mut out), Err(BpfErrorCode::EINVAL));
    assert_eq!(map.update(&[0, 0, 0, 0], &[1], 0), Err(BpfErrorCode::EINVAL));
    assert_eq!(map.update(&[0, 0, 0, 0, 0], &[1, 2], 0), Err(BpfErrorCode::EINVAL));
    assert_eq!(map.update(&[2, 0, 0, 0], &[1, 2], 0), Err(BpfErrorCode::ENOENT));
    assert_eq!(map.delete(&[0, 0, 0, 0]), Err(BpfErrorCode::EINVAL));
    assert_eq!(map.lookup(&[0, 0, 0, 0], &mut out), Ok(0));
    assert_eq!(out, [0, 0]);
}

#[test]
fn array_iteration_goes_up_by_one_and_ends() {
    let n = 6u32;
    let map = ArrayMap::new(attr(4, 1, n as usize));
    let mut seen = Vec::new();
    for i in 0..n - 1 {
        let mut next = [0u8; 4];
        assert_eq!(map.next_key(&i.to_le_bytes(), &mut next), Ok(0));
        seen.push(u32::from_le_bytes(next));
    }
    assert_eq!(seen, vec![1, 2, 3, 4, 5]);
    let mut next = [0xaau8; 4];
    assert_eq!(map.next_key(&(n - 1).to_le_bytes(), &mut next), Err(BpfErrorCode::ENOENT));
    assert_eq!(next, [0xaa; 4]);
    assert_eq!(map.next_key(&n.to_le_bytes(), &mut next), Ok(0));
    assert_eq!(next, [0, 0, 0, 0]);
    assert_eq!(map.next_key(&u32::MAX.to_le_bytes(), &mut next), Ok(0));
    assert_eq!(next, [0, 0, 0, 0]);
}

#[test]
fn array_without_entries_restarts_at_zero() {
    let map = ArrayMap::new(attr(4, 8, 0));
    let mut next = [1u8; 4];
    assert_eq!(map.next_key(&[0, 0, 0, 0], &mut next), Ok(0));
    assert_eq!(next, [0, 0, 0, 0]);
    let mut out = [0u8; 8];
    assert_eq!(map.lookup(&[0, 0, 0, 0], &mut out), Err(BpfErrorCode::ENOENT));
}

#[test]
fn array_helper_gives_addresses_one_value_apart() {
    let map = ArrayMap::new(attr(4, 8, 4));
    let first = map.lookup_helper(&0u32.to_le_bytes()).unwrap();
    let third = map.lookup_helper(&2u32.to_le_bytes()).unwrap();
    assert_eq!(third - first, 16);
    assert_eq!(map.lookup_helper(&4u32.to_le_bytes()), Err(BpfErrorCode::ENOENT));
    assert_eq!(map.lookup_helper(&[0, 0]), Err(BpfErrorCode::EINVAL));
}

#[test]
fn entry_addresses_count_up_from_the_base() {
    assert_eq!(element_addr(0x1000, 8, 0), 0x1000);
    assert_eq!(element_addr(0x1000, 8, 3), 0x1018);
    assert_eq!(element_addr(0x8020_0000, 24, 5), 0x8020_0078);
    assert_eq!(element_addr(0x1000, 0, 7), 0x1000);
    assert_eq!(element_addr(usize::MAX, 1, 1), 0);
    assert_eq!(element_addr(usize::MAX - 7, 8, 2), 8);
}

#[test]
fn hash_code_is_the_polynomial_of_131313() {
    assert_eq!(HashMap::hash(&[]), 0);
    assert_eq!(HashMap::hash(&[7]), 7);
    assert_eq!(HashMap::hash(&[1, 2]), 131313 + 2);
    let wide = (131313u64 * 131313 + 2 * 131313 + 3) % (1u64 << 32);
    assert_eq!(HashMap::hash(&[1, 2, 3]) as u64, wide);
    let mut h: u32 = 0;
    for b in [0xffu8, 0xfe, 0xfd, 0xfc, 0xfb] {
        h = h.wrapping_mul(131313).wrapping_add(b as u32);
    }
    assert_eq!(HashMap::hash(&[0xff, 0xfe, 0xfd, 0xfc, 0xfb]), h);
}

#[test]
fn hash_zeroed_buffer() {
    assert_eq!(HashMap::zeroed(0), Vec::<u8>::new());
    assert_eq!(HashMap::zeroed(3), vec![0, 0, 0]);
}

#[test]
fn hash_round_trip_is_the_identity() {
    let mut map = HashMap::new(attr(3, 5, 64));
    for i in 0..40u8 {
        let key = [i, i.wrapping_mul(7), 0xff - i];
        let value = [i, 1, 2, 3, i ^ 0x55];
        assert_eq!(map.update(&key, &value, BPF_NOEXIST), Ok(0));
    }
    for i in 0..40u8 {
        let key = [i, i.wrapping_mul(7), 0xff - i];
        let mut out = [0u8; 5];
        assert_eq!(map.lookup(&key, &mut out), Ok(0));
        assert_eq!(out, [i, 1, 2, 3, i ^ 0x55]);
    }
    let mut out = [0u8; 5];
    assert_eq!(map.lookup(&[200, 200, 200], &mut out), Err(BpfErrorCode::ENOENT));
}

#[test]
fn hash_refuses_unknown_flags_first() {
    let mut map = HashMap::new(attr(1, 1, 0));
    assert_eq!(map.update(&[1], &[1], 3), Err(BpfErrorCode::EINVAL));
    assert_eq!(map.update(&[1], &[1], BPF_F_LOCK), Err(BpfErrorCode::EINVAL));
    assert_eq!(map.update(&[1, 2], &[1], 9), Err(BpfErrorCode::EINVAL));
    assert_eq!(map.update(&[1, 2], &[1], BPF_ANY), Err(BpfErrorCode::EINVAL));
    assert_eq!(map.update(&[1], &[1, 2], BPF_ANY), Err(BpfErrorCode::EINVAL));
    assert_eq!(map.update(&[1], &[1], BPF_ANY), Err(BpfErrorCode::ENOMEM));
    assert_eq!(map.update(&[1], &[1], BPF_EXIST), Err(BpfErrorCode::ENOENT));
}

#[test]
fn hash_overwrites_in_place() {
    let mut map = HashMap::new(attr(2, 2, 4));
    assert_eq!(map.update(&[1, 1], &[5, 5], BPF_ANY), Ok(0));
    let before = map.lookup_helper(&[1, 1]).unwrap();
    assert_eq!(map.update(&[1, 1], &[6, 6], BPF_EXIST), Ok(0));
    assert_eq!(map.update(&[1, 1], &[7, 7], BPF_ANY), Ok(0));
    assert_eq!(map.lookup_helper(&[1, 1]).unwrap(), before);
    let mut out = [0u8; 2];
    assert_eq!(map.lookup(&[1, 1], &mut out), Ok(0));
    assert_eq!(out, [7, 7]);
    assert_eq!(map.lookup_helper(&[2, 2]), Err(BpfErrorCode::ENOENT));
}

#[test]
fn hash_delete_makes_room() {
    let mut map = HashMap::new(attr(1, 1, 2));
    assert_eq!(map.update(&[1], &[1], BPF_ANY), Ok(0));
    assert_eq!(map.update(&[2], &[2], BPF_ANY), Ok(0));
    assert_eq!(map.update(&[3], &[3], BPF_ANY), Err(BpfErrorCode::ENOMEM));
    assert_eq!(map.delete(&[1]), Ok(0));
    assert_eq!(map.delete(&[1]), Err(BpfErrorCode::ENOENT));
    assert_eq!(map.delete(&[1, 2]), Err(BpfErrorCode::EINVAL));
    assert_eq!(map.update(&[3], &[3], BPF_ANY), Ok(0));
    let mut out = [0u8; 1];
    assert_eq!(map.lookup(&[1], &mut out), Err(BpfErrorCode::ENOENT));
    assert_eq!(map.lookup(&[3], &mut out), Ok(0));
    assert_eq!(out, [3]);
}

fn walk(map: &HashMap, start: &[u8]) -> Vec<Vec<u8>> {
    let mut seen = Vec::new();
    let mut key = start.to_vec();
    loop {
        let mut next = vec![0u8; start.len()];
        match map.next_key(&key, &mut next) {
            Ok(0) => {
                seen.push(next.clone());
                key = next;
            }
            Err(BpfErrorCode::ENOENT) => return seen,
            other => panic!("unexpected {:?}", other),
        }
        assert!(seen.len() <= 1000);
    }
}

#[test]
fn hash_iteration_visits_each_key_once_in_hash_order() {
    let mut map = HashMap::new(attr(2, 1, 100));
    let mut keys = Vec::new();
    for i in 0..50u8 {
        let key = vec![i.wrapping_mul(37), i];
        assert_eq!(map.update(&key, &[i], BPF_NOEXIST), Ok(0));
        keys.push(key);
    }
    let seen = walk(&map, &[0xee, 0xee]);
    assert_eq!(seen.len(), 50);
    let mut sorted = seen.clone();
    sorted.sort();
    sorted.dedup();
    assert_eq!(sorted.len(), 50);
    for pair in seen.windows(2) {
        assert!(HashMap::hash(&pair[0]) <= HashMap::hash(&pair[1]));
    }
    let from_tenth = walk(&map, &seen[9]);
    assert_eq!(from_tenth, seen[10..].to_vec());
    assert_eq!(walk(&map, &seen[49]), Vec::<Vec<u8>>::new());
}

#[test]
fn hash_iteration_of_empty_map_ends_at_once() {
    let map = HashMap::new(attr(2, 1, 4));
    let mut next = [3u8; 2];
    assert_eq!(map.next_key(&[0, 0], &mut next), Err(BpfErrorCode::ENOENT));
    assert_eq!(next, [3, 3]);
    assert_eq!(map.next_key(&[0], &mut next), Err(BpfErrorCode::EINVAL));
    let mut short = [0u8; 1];
    assert_eq!(map.next_key(&[0, 0], &mut short), Err(BpfErrorCode::EINVAL));
}

#[test]
fn hash_keys_with_one_code_keep_insertion_order() {
    // two pairs of keys with one hash code each
    let a = [146u8, 216, 0, 19];
    let b = [0u8, 0, 237, 0];
    let c = [0u8, 0, 0, 64];
    let d = [250u8, 123, 187, 0];
    assert_eq!(HashMap::hash(&a), 31121181);
    assert_eq!(HashMap::hash(&b), 31121181);
    assert_eq!(HashMap::hash(&c), 64);
    assert_eq!(HashMap::hash(&d), 64);
    let mut map = HashMap::new(attr(4, 1, 8));
    for (i, k) in [a, b, c, d].iter().enumerate() {
        assert_eq!(map.update(k, &[i as u8], BPF_NOEXIST), Ok(0));
    }
    assert_eq!(walk(&map, &[9, 9, 9, 9]), vec![c.to_vec(), d.to_vec(), a.to_vec(), b.to_vec()]);
    assert_eq!(walk(&map, &d), vec![a.to_vec(), b.to_vec()]);
    assert_eq!(walk(&map, &b), Vec::<Vec<u8>>::new());
    let mut out = [9u8; 1];
    assert_eq!(map.lookup(&b, &mut out), Ok(0));
    assert_eq!(out, [1]);
    assert_eq!(map.lookup(&d, &mut out), Ok(0));
    assert_eq!(out, [3]);
    assert_eq!(map.delete(&c), Ok(0));
    assert_eq!(map.update(&c, &[7], BPF_ANY), Ok(0));
    assert_eq!(walk(&map, &[9, 9, 9, 9]), vec![d.to_vec(), c.to_vec(), a.to_vec(), b.to_vec()]);
    assert_eq!(map.delete(&a), Ok(0));
    assert_eq!(map.lookup(&b, &mut out), Ok(0));
    assert_eq!(out, [1]);
    assert_eq!(map.lookup(&a, &mut out), Err(BpfErrorCode::ENOENT));
    // keys of one byte come in the order of their values
    let mut map = HashMap::new(attr(1, 1, 8));
    for k in [5u8, 3, 9, 1] {
        assert_eq!(map.update(&[k], &[k], BPF_ANY), Ok(0));
    }
    assert_eq!(walk(&map, &[0]), vec![vec![1], vec![3], vec![5], vec![9]]);
}

#[test]
fn handles_ascend_from_the_base() {
    let mut objs = BpfObjects::new();
    let mut handles = Vec::new();
    for i in 0..5u32 {
        let map_type = if i % 2 == 0 { 1 } else { 2 };
        let fd = bpf_map_create(
            &mut objs,
            MapAttr { map_type, key_size: 4, value_size: 4, max_entries: 1 },
        )
        .unwrap();
        handles.push(fd);
        let bad = bpf_map_create(
            &mut objs,
            MapAttr { map_type: 9, key_size: 4, value_size: 4, max_entries: 1 },
        );
        assert_eq!(bad, Err(BpfErrorCode::EINVAL));
    }
    assert_eq!(handles, vec![0x70000000, 0x70000001, 0x70000002, 0x70000003, 0x70000004]);
    assert_eq!(BPF_FD_BASE, 0x70000000);
    assert_eq!(bpf_allocate_fd(&mut objs), 0x70000005);
    assert_eq!(bpf_allocate_fd(&mut objs), 0x70000006);
}

#[test]
fn create_checks_type_and_key_size() {
    let mut objs = BpfObjects::new();
    let create = |objs: &mut BpfObjects, map_type, key_size| {
        bpf_map_create(objs, MapAttr { map_type, key_size, value_size: 4, max_entries: 2 })
    };
    assert_eq!(create(&mut objs, 0, 4), Err(BpfErrorCode::EINVAL));
    assert_eq!(create(&mut objs, 3, 4), Err(BpfErrorCode::EINVAL));
    assert_eq!(create(&mut objs, 2, 8), Err(BpfErrorCode::EINVAL));
    assert_eq!(create(&mut objs, 2, 4), Ok(0x70000000));
    assert_eq!(create(&mut objs, 1, 8), Ok(0x70000001));
    assert_eq!(
        bpf_map_get_attr(&objs, 0x70000001),
        Some(InternalMapAttr { key_size: 8, value_size: 4, max_entries: 2 })
    );
    assert_eq!(bpf_map_get_attr(&objs, 0x70000002), None);
}

#[test]
fn close_removes_and_reports_missing_handles() {
    let mut objs = BpfObjects::new();
    let fd = bpf_map_create(
        &mut objs,
        MapAttr { map_type: 1, key_size: 1, value_size: 1, max_entries: 1 },
    )
    .unwrap() as u32;
    assert_eq!(bpf_map_close(&mut objs, fd), Ok(0));
    assert_eq!(bpf_map_close(&mut objs, fd), Err(BpfErrorCode::ENOENT));
    let mut out = [0u8; 1];
    assert_eq!(
        bpf_map_lookup_elem(&mut objs, fd, &[0], &mut out, 0, false),
        Err(BpfErrorCode::ENOENT)
    );
}

#[test]
fn user_buffers_are_zeroed_when_nothing_is_found() {
    let mut objs = BpfObjects::new();
    let fd = bpf_map_create(
        &mut objs,
        MapAttr { map_type: 1, key_size: 2, value_size: 3, max_entries: 4 },
    )
    .unwrap() as u32;
    let mut out = [7u8; 3];
    assert_eq!(
        bpf_map_ops(&mut objs, fd, BpfMapOp::LookUp, &[1, 2], &mut out, 0, false),
        Err(BpfErrorCode::ENOENT)
    );
    assert_eq!(out, [7, 7, 7]);
    assert_eq!(
        bpf_map_ops(&mut objs, fd, BpfMapOp::LookUp, &[1, 2], &mut out, 0, true),
        Err(BpfErrorCode::ENOENT)
    );
    assert_eq!(out, [0, 0, 0]);
    let mut next = [7u8; 2];
    assert_eq!(
        bpf_map_get_next_key(&mut objs, fd, &[1, 2], &mut next, 0, true),
        Err(BpfErrorCode::ENOENT)
    );
    assert_eq!(next, [0, 0]);
    let mut value = [4u8, 5, 6];
    assert_eq!(bpf_map_ops(&mut objs, fd, BpfMapOp::Update, &[1, 2], &mut value, 0, true), Ok(0));
    assert_eq!(value, [4, 5, 6]);
    assert_eq!(bpf_map_get_next_key(&mut objs, fd, &[9, 9], &mut next, 0, true), Ok(0));
    assert_eq!(next, [1, 2]);
    assert_eq!(bpf_map_ops(&mut objs, fd, BpfMapOp::LookUp, &[1, 2], &mut out, 0, true), Ok(0));
    assert_eq!(out, [4, 5, 6]);
    assert_eq!(bpf_map_ops(&mut objs, fd, BpfMapOp::Delete, &[1, 2], &mut out, 0, true), Ok(0));
    assert_eq!(out, [4, 5, 6]);
    let mut wrong = [1u8; 5];
    assert_eq!(
        bpf_map_ops(&mut objs, fd, BpfMapOp::LookUp, &[1, 2], &mut wrong, 0, true),
        Err(BpfErrorCode::EINVAL)
    );
    assert_eq!(wrong, [1; 5]);
}
