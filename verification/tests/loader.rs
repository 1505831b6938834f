use kernel_ebpf::ebpf::consts::{R_BPF_64_32, R_BPF_64_64, R_BPF_64_ABS64, R_BPF_NONE};
use kernel_ebpf::ebpf::osutil::{sys_bpf_program_load_ex, sys_preprocess_bpf_program_load_ex};
use kernel_ebpf::ebpf::program::{
    bpf_program_load_ex, find_section_by_name, read_text, relocate, BpfProgram, ElfImage, ElfRel,
    ElfSection, ElfSymbol, MapFdEntry, ProgramLoadExAttr, EM_BPF, JIT_STACK_SIZE,
};
use kernel_ebpf::ebpf::retcode::BpfErrorCode;
use kernel_ebpf::ebpf::{
    bpf_object_create_program, bpf_object_remove, BpfObject, BpfObjects,
};
use std::cell::RefCell;
use std::rc::Rc;

const TEXT_AT: usize = 64;

fn section(name: &str, offset: u64, size: u64) -> ElfSection {
    ElfSection { name: Some(name.as_bytes().to_vec()), offset, size, symbols: None, rels: None }
}

fn symbols(names: &[Option<&str>]) -> Vec<ElfSymbol> {
    names.iter().map(|n| ElfSymbol { name: n.map(|s| s.as_bytes().to_vec()) }).collect()
}

/// A file with one `ld_imm64` in `.text`, which refers to the symbol `mymap`.
fn image(rels: Vec<ElfRel>) -> ElfImage {
    let mut symtab = section(".symtab", 128, 48);
    symtab.symbols = Some(symbols(&[Some(""), Some("mymap"), Some("other"), None]));
    let mut rel = section(".rel.text", 200, 16);
    rel.rels = Some(rels);
    ElfImage {
        machine: EM_BPF,
        sections: vec![
            ElfSection { name: None, offset: 0, size: 0, symbols: None, rels: None },
            section(".text", TEXT_AT as u64, 32),
            rel,
            symtab,
            section(".strtab", 180, 20),
        ],
    }
}

fn file() -> Vec<u8> {
    let mut bytes: Vec<u8> = (0..=255u8).collect();
    // ld_imm64 r1, 0: 18 01 00 00 00 00 00 00 | 00 00 00 00 00 00 00 00
    bytes[TEXT_AT..TEXT_AT + 16].copy_from_slice(&[0x18, 0x01, 0, 0, 0, 0, 0, 0, 0, 0, 0, 0, 0, 0, 0, 0]);
    bytes
}

fn maps(names: &[(&str, u32)]) -> Vec<(String, u32)> {
    names.iter().map(|(n, fd)| (n.to_string(), *fd)).collect()
}

fn rel(offset: u64, symbol: u32, kind: u32) -> ElfRel {
    ElfRel { offset, symbol, kind }
}

#[test]
fn load_patches_the_immediate_with_the_address_of_the_handle() {
    let mut objs = BpfObjects::new();
    let mut prog = file();
    let untouched = file();
    let image = image(vec![rel(0, 1, R_BPF_64_64)]);
    let seen = Rc::new(RefCell::new((Vec::new(), 0usize)));
    let seen_by_jit = seen.clone();
    let jit = move |insns: &[u64], stack: usize| {
        *seen_by_jit.borrow_mut() = (insns.to_vec(), stack);
        vec![0x00008067u32]
    };
    let fd = bpf_program_load_ex(&mut objs, &mut prog, &image, &maps(&[("mymap", 0x70000123)]), jit);
    assert_eq!(fd, Ok(0x70000000));
    let program = match objs.get(0x70000000) {
        Some(BpfObject::Program(program)) => program.clone(),
        _ => panic!("no program"),
    };
    assert_eq!(program.map_fd_table, Some(vec![0x70000123]));
    assert_eq!(program.jited_prog, Some(vec![0x00008067]));
    assert_eq!(program.bpf_insns, None);
    let addr = program.map_fd_table.as_ref().unwrap().as_ptr() as u64;
    assert_eq!(prog[TEXT_AT + 4..TEXT_AT + 8], (addr as u32).to_le_bytes());
    assert_eq!(prog[TEXT_AT + 12..TEXT_AT + 16], ((addr >> 32) as u32).to_le_bytes());
    // nothing else changed
    assert_eq!(prog[..TEXT_AT + 4], untouched[..TEXT_AT + 4]);
    assert_eq!(prog[TEXT_AT + 8..TEXT_AT + 12], untouched[TEXT_AT + 8..TEXT_AT + 12]);
    assert_eq!(prog[TEXT_AT + 16..], untouched[TEXT_AT + 16..]);
    // the compiler saw the patched code, four words of it, and the stack size
    let (insns, stack) = seen.borrow().clone();
    assert_eq!(stack, 512);
    assert_eq!(JIT_STACK_SIZE, 512);
    assert_eq!(insns.len(), 4);
    assert_eq!(insns[0], 0x0118 | ((addr & 0xffff_ffff) << 32));
    assert_eq!(insns[1], (addr >> 32) << 32);
    assert_eq!(insns[2].to_le_bytes(), [80, 81, 82, 83, 84, 85, 86, 87]);
}

#[test]
fn relocate_writes_both_kinds() {
    let table: usize = 0x0012_3456_789a_bcd0;
    let mut prog = file();
    let image64 = image(vec![rel(0, 1, R_BPF_64_64), rel(16, 2, R_BPF_64_64)]);
    let map_info = maps(&[("other", 5), ("mymap", 6)]);
    assert_eq!(relocate(&mut prog, &image64, &map_info, table), Ok((TEXT_AT, 32)));
    // `mymap` is the second map: its handle lies four bytes into the table
    let a = table as u64 + 4;
    assert_eq!(prog[TEXT_AT + 4..TEXT_AT + 8], (a as u32).to_le_bytes());
    assert_eq!(prog[TEXT_AT + 12..TEXT_AT + 16], ((a >> 32) as u32).to_le_bytes());
    let b = table as u64;
    assert_eq!(prog[TEXT_AT + 20..TEXT_AT + 24], (b as u32).to_le_bytes());
    assert_eq!(prog[TEXT_AT + 28..TEXT_AT + 32], ((b >> 32) as u32).to_le_bytes());

    let mut prog = file();
    let image32 = image(vec![rel(0, 2, R_BPF_64_32)]);
    assert_eq!(relocate(&mut prog, &image32, &map_info, table), Ok((TEXT_AT, 32)));
    let v = table as u64 / 8 - 1;
    assert_eq!(v, 0x0002_468a_cf13_5799);
    assert_eq!(prog[TEXT_AT + 4..TEXT_AT + 8], (v as u32).to_le_bytes());
    assert_eq!(prog[TEXT_AT + 12..TEXT_AT + 16], ((v >> 32) as u32).to_le_bytes());

    // an eighth of a small address less one wraps around
    let mut prog = file();
    assert_eq!(relocate(&mut prog, &image32, &map_info, 0), Ok((TEXT_AT, 32)));
    assert_eq!(prog[TEXT_AT + 4..TEXT_AT + 8], [0xff; 4]);
    assert_eq!(prog[TEXT_AT + 12..TEXT_AT + 16], [0xff; 4]);
}

#[test]
fn relocate_skips_what_does_not_name_a_map() {
    let map_info = maps(&[("mymap", 6)]);
    for rels in [
        vec![rel(0, 2, R_BPF_64_64)],          // `other` is no map
        vec![rel(0, 0, R_BPF_64_64)],          // the empty name
        vec![rel(0, 3, R_BPF_64_64)],          // no name at all
        vec![rel(0, 9, R_BPF_64_64)],          // no such symbol
        vec![rel(0, 1, R_BPF_NONE)],           // kinds that do not patch
        vec![rel(0, 1, R_BPF_64_ABS64)],
        vec![rel(1000, 2, R_BPF_64_64)],       // out of the section, but skipped
        vec![],
    ] {
        let mut prog = file();
        assert_eq!(relocate(&mut prog, &image(rels), &map_info, 0x5000), Ok((TEXT_AT, 32)));
        assert_eq!(prog, file());
    }
}

#[test]
fn later_entries_overwrite_earlier_ones() {
    let map_info = maps(&[("mymap", 6), ("other", 7)]);
    let mut prog = file();
    let image = image(vec![rel(0, 1, R_BPF_64_64), rel(0, 2, R_BPF_64_64)]);
    assert_eq!(relocate(&mut prog, &image, &map_info, 0x5000), Ok((TEXT_AT, 32)));
    assert_eq!(prog[TEXT_AT + 4..TEXT_AT + 8], 0x5004u32.to_le_bytes());
}

#[test]
fn a_name_given_twice_stands_for_the_later_map() {
    let map_info = maps(&[("mymap", 6), ("zzz", 8), ("mymap", 7)]);
    let mut prog = file();
    let mut img = image(vec![rel(0, 1, R_BPF_64_64)]);
    img.sections[3].symbols = Some(symbols(&[Some("zzz"), Some("mymap")]));
    assert_eq!(relocate(&mut prog, &img, &map_info, 0x5000), Ok((TEXT_AT, 32)));
    assert_eq!(prog[TEXT_AT + 4..TEXT_AT + 8], 0x5008u32.to_le_bytes());
}

#[test]
fn load_errors_leave_everything_as_it_was() {
    let map_info = maps(&[("mymap", 6)]);
    let check = |img: ElfImage, map_info: &[(String, u32)], want: BpfErrorCode| {
        let mut objs = BpfObjects::new();
        let mut prog = file();
        let called = Rc::new(RefCell::new(false));
        let flag = called.clone();
        let jit = move |_: &[u64], _: usize| {
            *flag.borrow_mut() = true;
            Vec::new()
        };
        assert_eq!(bpf_program_load_ex(&mut objs, &mut prog, &img, map_info, jit), Err(want));
        assert_eq!(prog, file());
        assert!(!*called.borrow());
        assert!(objs.get(0x70000000).is_none());
        let mut prog = file();
        assert_eq!(relocate(&mut prog, &img, map_info, 0x5000), Err(want));
        assert_eq!(prog, file());
    };
    let good = || image(vec![rel(0, 1, R_BPF_64_64)]);

    let mut img = good();
    img.machine = 0xf3; // RISC-V
    check(img, &map_info, BpfErrorCode::EINVAL);

    let mut img = good();
    img.sections[3].name = Some(b".dynsym".to_vec());
    check(img, &map_info, BpfErrorCode::ENOENT);

    // a map whose name is no symbol
    check(good(), &maps(&[("mymap", 6), ("lost", 7)]), BpfErrorCode::ENOENT);

    // a symbol table that is none, and maps to resolve
    let mut img = good();
    img.sections[3].symbols = None;
    check(img, &map_info, BpfErrorCode::ENOENT);

    // entries without a name for their section
    let mut img = good();
    img.sections[2].name = None;
    check(img, &map_info, BpfErrorCode::EINVAL);

    // entries for a section that is not there
    let mut img = good();
    img.sections[2].name = Some(b".rel.maps".to_vec());
    check(img, &map_info, BpfErrorCode::ENOENT);

    // the patched section reaches beyond the file
    let mut img = good();
    img.sections[1].size = 1000;
    check(img, &map_info, BpfErrorCode::EINVAL);
    let mut img = good();
    img.sections[1].offset = u64::MAX;
    check(img, &map_info, BpfErrorCode::EINVAL);

    // no room for the second slot
    check(image(vec![rel(17, 1, R_BPF_64_64)]), &map_info, BpfErrorCode::EINVAL);
    check(image(vec![rel(u64::MAX, 1, R_BPF_64_32)]), &map_info, BpfErrorCode::EINVAL);

    // no code
    let mut img = image(vec![]);
    img.sections[1].name = Some(b".txt".to_vec());
    check(img, &map_info, BpfErrorCode::ENOENT);
}

#[test]
fn sections_that_only_look_like_relocations_are_left_alone() {
    let map_info = maps(&[("mymap", 6)]);
    // entries in a section whose name does not begin with `.rel`
    let mut img = image(vec![rel(0, 1, R_BPF_64_64)]);
    img.sections[2].name = Some(b".xyz.text".to_vec());
    let mut prog = file();
    assert_eq!(relocate(&mut prog, &img, &map_info, 0x5000), Ok((TEXT_AT, 32)));
    assert_eq!(prog, file());
    // the first section of a name counts
    let mut img = image(vec![rel(0, 1, R_BPF_64_64)]);
    img.sections.push(section(".text", 0, 16));
    assert_eq!(find_section_by_name(&img, b".text"), Some(1));
    assert_eq!(find_section_by_name(&img, b".symtab"), Some(3));
    assert_eq!(find_section_by_name(&img, b".data"), None);
    // with no maps, a file without symbols loads
    let mut img = image(vec![rel(0, 1, R_BPF_64_64)]);
    img.sections[3].symbols = None;
    let mut prog = file();
    assert_eq!(relocate(&mut prog, &img, &[], 0x5000), Ok((TEXT_AT, 32)));
    assert_eq!(prog, file());
}

#[test]
fn text_is_read_in_words_of_eight_bytes() {
    let bytes: Vec<u8> = (1..=20u8).collect();
    assert_eq!(read_text(&bytes, 0, 0), Vec::<u64>::new());
    assert_eq!(read_text(&bytes, 0, 7), Vec::<u64>::new());
    assert_eq!(read_text(&bytes, 0, 8), vec![0x0807060504030201]);
    assert_eq!(read_text(&bytes, 3, 17), vec![0x0b0a090807060504, 0x131211100f0e0d0c]);
}

#[test]
fn system_call_results_of_loading() {
    let mut objs = BpfObjects::new();
    let img = image(vec![rel(0, 1, R_BPF_64_64)]);
    let mut prog = file();
    let jit = |_: &[u64], _: usize| vec![1u32, 2, 3];
    let ret = sys_bpf_program_load_ex(&mut objs, &mut prog, &img, &maps(&[("mymap", 6)]), jit);
    assert_eq!(ret, 0x70000000);
    let mut prog = file();
    let ret = sys_bpf_program_load_ex(&mut objs, &mut prog, &img, &maps(&[("nomap", 6)]), jit);
    assert_eq!(ret, -1);

    // the attributes and the array of entries as user space lays them out
    let mut attr = Vec::new();
    attr.extend_from_slice(&0x1000u64.to_le_bytes());
    attr.extend_from_slice(&256u32.to_le_bytes());
    attr.extend_from_slice(&2u32.to_le_bytes());
    attr.extend_from_slice(&0x2000u64.to_le_bytes());
    assert_eq!(
        ProgramLoadExAttr::from_bytes(&attr),
        Some(ProgramLoadExAttr { elf_prog: 0x1000, elf_size: 256, map_array_len: 2, map_array: 0x2000 })
    );
    assert_eq!(ProgramLoadExAttr::from_bytes(&attr[..23]), None);
    let mut array = Vec::new();
    for (name, fd) in [(0x3000u64, 0x70000009u32), (0x3010, 0x7000000a)] {
        array.extend_from_slice(&name.to_le_bytes());
        array.extend_from_slice(&fd.to_le_bytes());
        array.extend_from_slice(&[0xcc; 4]);
    }
    assert_eq!(
        MapFdEntry::from_bytes(&array[16..]),
        Some(MapFdEntry { name: 0x3010, fd: 0x7000000a })
    );
    assert_eq!(MapFdEntry::from_bytes(&array[..15]), None);
    let names = vec!["other".to_string(), "mymap".to_string()];
    let mut prog = file();
    let ret = sys_preprocess_bpf_program_load_ex(
        &mut objs, &attr, attr.len(), &mut prog, &img, &array, &names, jit,
    );
    assert_eq!(ret, 0x70000001);
    match objs.get(0x70000001) {
        Some(BpfObject::Program(p)) => {
            assert_eq!(p.map_fd_table, Some(vec![0x70000009, 0x7000000a]));
            let addr = p.map_fd_table.as_ref().unwrap().as_ptr() as u64 + 4;
            assert_eq!(prog[TEXT_AT + 4..TEXT_AT + 8], (addr as u32).to_le_bytes());
        }
        _ => panic!("no program"),
    }
    // fewer names, or a shorter array, than the attributes say
    let mut prog = file();
    let ret = sys_preprocess_bpf_program_load_ex(
        &mut objs, &attr, attr.len(), &mut prog, &img, &array, &names[..1], jit,
    );
    assert_eq!(ret, -1);
    let ret = sys_preprocess_bpf_program_load_ex(
        &mut objs, &attr, attr.len(), &mut prog, &img, &array[..31], &names, jit,
    );
    assert_eq!(ret, -1);
    let ret = sys_preprocess_bpf_program_load_ex(
        &mut objs, &attr[..20], 20, &mut prog, &img, &array, &names, jit,
    );
    assert_eq!(ret, -1);
    assert!(objs.get(0x70000002).is_none());
    assert_eq!(prog, file());
}

#[test]
fn programs_can_be_put_and_removed_by_handle() {
    let mut objs = BpfObjects::new();
    let program = BpfProgram { bpf_insns: None, jited_prog: Some(vec![7]), map_fd_table: None };
    bpf_object_create_program(&mut objs, 5, program);
    let obj = objs.get(5).unwrap();
    assert!(obj.is_program().is_some());
    assert!(obj.is_map().is_none());
    match bpf_object_remove(&mut objs, 5) {
        Some(BpfObject::Program(p)) => assert_eq!(p.jited_prog, Some(vec![7])),
        _ => panic!("no program"),
    }
    assert!(bpf_object_remove(&mut objs, 5).is_none());
    assert!(objs.get(5).is_none());
}
