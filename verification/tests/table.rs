use satsuki::error::ExecutableError;
use satsuki::executable::Executable;
use satsuki::function::Function;
use satsuki::mapping::{FunctionDef, Mapping};
use satsuki::sources::{CodeSection, SymbolInfo};

fn named_def(name: &str, address: usize, size: usize) -> FunctionDef {
    FunctionDef { name: Some(name.to_string()), address, size }
}

fn code_symbol(name: &str, address: usize, size: usize) -> SymbolInfo {
    SymbolInfo { name: Ok(name.to_string()), address, size, is_code: true }
}

fn section(base: usize, bytes: Vec<u8>) -> CodeSection {
    CodeSection { base, bytes }
}

#[test]
fn duplicate_name_in_primary_insert_is_a_conflict() {
    let mut exe = Executable::default();
    exe.add_function("f".to_string(), 0x10, vec![1]).unwrap();
    let err = exe.add_function("f".to_string(), 0x20, vec![2]).unwrap_err();
    assert!(matches!(
        err,
        ExecutableError::FunctionNameConflict { ref function_name } if function_name == "f"
    ));
    assert_eq!(exe.functions_count(), 1);
    assert_eq!(exe.get_function(&"f".to_string()).unwrap().data, vec![1]);
}

#[test]
fn duplicate_name_in_additive_insert_keeps_the_first() {
    let mut exe = Executable::default();
    exe.add_function("f".to_string(), 0x10, vec![1]).unwrap();
    let text = vec![9, 9, 9, 9];
    exe.add_function_from_pdb(0x100, &text, "f".to_string(), 0, 4).unwrap();
    assert_eq!(exe.functions_count(), 1);
    assert_eq!(exe.get_function(&"f".to_string()).unwrap().data, vec![1]);
    assert_eq!(exe.get_function(&"f".to_string()).unwrap().address, 0x10);
}

#[test]
fn additive_insert_skips_zero_length_and_adds_new_names() {
    let mut exe = Executable::default();
    let text = vec![7, 8, 9];
    exe.add_function_from_pdb(0x100, &text, "zero".to_string(), 1, 0).unwrap();
    assert_eq!(exe.functions_count(), 0);
    exe.add_function_from_pdb(0x100, &text, "g".to_string(), 1, 2).unwrap();
    assert_eq!(exe.functions_count(), 1);
    let g = exe.get_function(&"g".to_string()).unwrap();
    assert_eq!(g.address, 0x101);
    assert_eq!(g.data, vec![8, 9]);
}

#[test]
fn additive_insert_out_of_bounds_is_fatal() {
    let mut exe = Executable::default();
    let text = vec![7, 8, 9];
    let err = exe.add_function_from_pdb(0x100, &text, "g".to_string(), 2, 5).unwrap_err();
    assert!(matches!(err, ExecutableError::OutOfBoundsSlice { address: 2, size: 5 }));
}

#[test]
fn lookup_by_address_finds_first_match_in_table_order() {
    let mut exe = Executable::default();
    exe.add_function("a".to_string(), 0x10, vec![1]).unwrap();
    exe.add_function("b".to_string(), 0x20, vec![2]).unwrap();
    assert_eq!(exe.get_function_by_address(0x20).unwrap().name, "b");
    assert!(exe.get_function_by_address(0x30).is_none());
}

#[test]
fn generate_stats_has_one_entry_per_name_and_divides_by_total() {
    let mut original = Executable::default();
    original.add_function("a".to_string(), 0x10, vec![1, 2]).unwrap();
    original.add_function("b".to_string(), 0x20, vec![3, 4]).unwrap();
    original.add_function("c".to_string(), 0x30, vec![5, 6]).unwrap();

    let mut reimpl = Executable::default();
    reimpl.add_function("a".to_string(), 0x10, vec![1, 2]).unwrap();
    reimpl.add_function("b".to_string(), 0x20, vec![3, 4]).unwrap();

    let stats = original.generate_stats(&reimpl);
    assert_eq!(stats.len(), 3);

    let mut global = 0.0f32;
    let mut missing = 0;
    for (name, score) in &stats {
        match score {
            Some(s) => {
                assert!(name == "a" || name == "b");
                global += s.matching as f32 / s.total as f32 * 100.0;
            }
            None => {
                assert_eq!(name, "c");
                missing += 1;
            }
        }
    }
    assert_eq!(missing, 1);
    let global = global / original.functions_count() as f32;
    assert!((global - 200.0 / 3.0).abs() < 1e-3);
}

#[test]
fn get_function_stat_is_none_when_either_side_lacks_the_name() {
    let mut original = Executable::default();
    original.add_function("a".to_string(), 0x10, vec![1, 2]).unwrap();
    let reimpl = Executable::default();
    assert!(original.get_function_stat(&reimpl, &"a".to_string()).is_none());
    assert!(original.get_function_stat(&reimpl, &"zz".to_string()).is_none());
}

#[test]
fn primary_pass_skips_zero_size_and_non_code_symbols() {
    let code = Some(section(0x100, vec![1, 2, 3, 4]));
    let symbols = vec![
        code_symbol("f", 0x100, 2),
        code_symbol("zero", 0x102, 0),
        SymbolInfo { name: Ok("data".to_string()), address: 0x102, size: 2, is_code: false },
    ];
    let exe = Executable::from_primary_symbols(&code, symbols).unwrap();
    assert_eq!(exe.functions_count(), 1);
    assert_eq!(exe.get_function(&"f".to_string()).unwrap().data, vec![1, 2]);
    assert!(exe.get_function(&"zero".to_string()).is_none());
}

#[test]
fn primary_pass_duplicate_symbol_is_a_hard_error() {
    let code = Some(section(0x100, vec![1, 2, 3, 4]));
    let symbols = vec![code_symbol("f", 0x100, 2), code_symbol("f", 0x102, 2)];
    let err = Executable::from_primary_symbols(&code, symbols).unwrap_err();
    assert!(matches!(err, ExecutableError::FunctionNameConflict { .. }));
}

#[test]
fn primary_pass_out_of_bounds_slice_is_a_hard_error() {
    let code = Some(section(0x100, vec![1, 2, 3, 4]));
    let symbols = vec![code_symbol("f", 0x103, 4)];
    let err = Executable::from_primary_symbols(&code, symbols).unwrap_err();
    assert!(matches!(err, ExecutableError::OutOfBoundsSlice { address: 0x103, size: 4 }));
}

#[test]
fn primary_pass_without_code_section_builds_empty_table() {
    let symbols = vec![code_symbol("f", 0x100, 2)];
    let exe = Executable::from_primary_symbols(&None, symbols).unwrap();
    assert_eq!(exe.functions_count(), 0);
}

#[test]
fn mapping_pass_respects_primary_entries_and_skips_zero_sizes() {
    let mut exe = Executable::default();
    exe.add_function("f".to_string(), 0x100, vec![1]).unwrap();
    let code = section(0x100, vec![1, 2, 3, 4]);
    let mapping = Mapping {
        function: Some(vec![
            named_def("f", 0x102, 2),
            named_def("zero", 0x101, 0),
            FunctionDef { name: None, address: 0x101, size: 2 },
            named_def("g", 0x101, 3),
        ]),
    };
    exe.apply_mapping(&code, &mapping).unwrap();
    assert_eq!(exe.functions_count(), 2);
    assert_eq!(exe.get_function(&"f".to_string()).unwrap().data, vec![1]);
    let g = exe.get_function(&"g".to_string()).unwrap();
    assert_eq!(g.address, 0x101);
    assert_eq!(g.data, vec![2, 3, 4]);
}

#[test]
fn mapping_pass_out_of_bounds_entry_is_fatal() {
    let mut exe = Executable::default();
    let code = section(0x100, vec![1, 2, 3, 4]);
    let mapping = Mapping { function: Some(vec![named_def("g", 0x90, 2)]) };
    let err = exe.apply_mapping(&code, &mapping).unwrap_err();
    assert!(matches!(err, ExecutableError::OutOfBoundsSlice { address: 0x90, size: 2 }));
}

#[test]
fn get_function_def_returns_first_named_match() {
    let mapping = Mapping {
        function: Some(vec![
            FunctionDef { name: None, address: 0, size: 1 },
            named_def("f", 0x10, 4),
            named_def("f", 0x20, 8),
        ]),
    };
    let def = mapping.get_function_def("f").unwrap();
    assert_eq!(def.address, 0x10);
    assert_eq!(def.size, 4);
    assert!(mapping.get_function_def("g").is_none());
    let empty = Mapping { function: None };
    assert!(empty.get_function_def("f").is_none());
}

#[test]
fn public_symbols_are_sized_by_the_mapping() {
    let mut exe = Executable::default();
    let code = section(0x100, vec![1, 2, 3, 4]);
    let mapping = Mapping { function: Some(vec![named_def("pub_fn", 0x101, 2)]) };
    let publics = vec![
        satsuki::sources::PublicInfo { name: "pub_fn".to_string(), offset: 1, is_function: true },
        satsuki::sources::PublicInfo { name: "unsized".to_string(), offset: 0, is_function: true },
        satsuki::sources::PublicInfo { name: "not_fn".to_string(), offset: 0, is_function: false },
    ];
    exe.apply_public_symbols(&code, &publics, &mapping).unwrap();
    assert_eq!(exe.functions_count(), 1);
    let f = exe.get_function(&"pub_fn".to_string()).unwrap();
    assert_eq!(f.address, 0x101);
    assert_eq!(f.data, vec![2, 3]);
}

#[test]
fn debug_procedures_add_new_names_only() {
    let mut exe = Executable::default();
    exe.add_function("f".to_string(), 0x100, vec![9]).unwrap();
    let code = section(0x100, vec![1, 2, 3, 4]);
    let procs = vec![
        satsuki::sources::ProcedureInfo { name: "f".to_string(), offset: 0, len: 4 },
        satsuki::sources::ProcedureInfo { name: "g".to_string(), offset: 2, len: 2 },
        satsuki::sources::ProcedureInfo { name: "empty".to_string(), offset: 0, len: 0 },
    ];
    exe.apply_debug_procedures(&code, &procs).unwrap();
    assert_eq!(exe.functions_count(), 2);
    assert_eq!(exe.get_function(&"f".to_string()).unwrap().data, vec![9]);
    assert_eq!(exe.get_function(&"g".to_string()).unwrap().data, vec![3, 4]);
}

#[test]
fn functions_iter_walks_the_table_in_insertion_order() {
    let mut exe = Executable::default();
    exe.add_function("a".to_string(), 1, vec![1]).unwrap();
    exe.add_function("b".to_string(), 2, vec![2]).unwrap();
    let names: Vec<String> = exe.functions_iter().iter().map(|f: &Function| f.name.clone()).collect();
    assert_eq!(names, vec!["a".to_string(), "b".to_string()]);
}
