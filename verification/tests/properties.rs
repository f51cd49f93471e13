use argus::compiler_option::{CompilerOption, OptionManagement};
use argus::error::RewriteError;
use argus::object::ResolvedObject;
use argus::option_manager::CompilerOptionManager;
use argus::option_visitors::{DefaultOptimizationVisitor, LLVMPassManager, LibfuzzerVisitor,
    OptionVisitor, RuntimeVisitor, SanitizerVisitor};
use argus::text::tokenize_response;

fn parse(args: &[&str]) -> CompilerOptionManager {
    CompilerOptionManager::new(args.iter().map(|a| a.to_string()).collect())
}

#[test]
fn merge_same_value_twice_yields_one_occurrence() {
    let mut o = CompilerOption::from_arg("-fsanitize=thread");
    o.add_or_update_value("address");
    o.add_or_update_value("address");
    assert_eq!(o.values, vec!["thread".to_string(), "address".to_string()]);
    assert_eq!(o.values.iter().filter(|v| *v == "address").count(), 1);
}

#[test]
fn replace_of_higher_level_leaves_single_optimization_flag() {
    let mut m = parse(&["-O2"]);
    let mut v = DefaultOptimizationVisitor::with_env_level(Some(3));
    v.visit(&mut m.options).unwrap();
    m.cleanup();
    assert!(!m.options.iter().any(|o| o.is_enabled && o.name == "-O2"));
    let o3: Vec<_> = m.options.iter().filter(|o| o.is_enabled && o.name == "-O3").collect();
    assert_eq!(o3.len(), 1);
}

#[test]
fn optimization_canonicalization_single_flag() {
    let mut m = parse(&["-O1", "-O3", "foo.c", "-O2"]);
    let mut v = DefaultOptimizationVisitor::new();
    v.visit(&mut m.options).unwrap();
    let o_flags: Vec<_> = m
        .options
        .iter()
        .filter(|o| o.is_enabled && o.name.starts_with("-O"))
        .collect();
    assert_eq!(o_flags.len(), 1);
    assert_eq!(o_flags[0].name, "-O3");
    assert!(m.options.iter().any(|o| o.is_enabled && o.name == "-funroll-loops"));

    let mut m2 = parse(&["foo.c"]);
    let mut v2 = DefaultOptimizationVisitor::new();
    v2.visit(&mut m2.options).unwrap();
    let o_flags2: Vec<_> = m2
        .options
        .iter()
        .filter(|o| o.is_enabled && o.name.starts_with("-O"))
        .collect();
    assert_eq!(o_flags2.len(), 1);
    assert_eq!(o_flags2[0].name, "-O0");
    assert!(!m2.options.iter().any(|o| o.is_enabled && o.name == "-funroll-loops"));
}

#[test]
fn sanitizer_reconciliation_is_idempotent() {
    let inputs: Vec<Vec<&str>> = vec![
        vec!["-fsanitize=address", "main.c"],
        vec!["main.c"],
        vec!["-fsanitize=memory,undefined"],
        vec!["-fsanitize=thread,address", "-fsanitize-coverage=trace-pc-guard"],
    ];
    for args in inputs {
        let mut m = parse(&args);
        let mut v = SanitizerVisitor::with_env(false, true, false, true, true);
        v.visit(&mut m.options).unwrap();
        let once = m.get_command();
        let mut v2 = SanitizerVisitor::with_env(false, true, false, true, true);
        v2.visit(&mut m.options).unwrap();
        let twice = m.get_command();
        assert_eq!(once, twice);
    }
}

#[test]
fn driver_substitution_on_linking_invocation() {
    let mut m = parse(&["main.o", "-fsanitize=fuzzer,address"]);
    let mut v = LibfuzzerVisitor::new(
        ResolvedObject::found("bandfuzz-driver.o", "/opt/fuzz/bandfuzz-driver.o"),
        ResolvedObject::found("bandfuzz-driver-libc++.o", "/opt/fuzz/bandfuzz-driver-libc++.o"),
    );
    v.visit(&mut m.options).unwrap();
    let sanitize: Vec<_> =
        m.options.iter().filter(|o| o.is_enabled && o.name == "-fsanitize").collect();
    assert_eq!(sanitize.len(), 1);
    assert_eq!(sanitize[0].values, vec!["address".to_string()]);
    assert!(m
        .options
        .iter()
        .any(|o| o.is_enabled && o.name == "/opt/fuzz/bandfuzz-driver.o"));
    let cmd = m.get_command();
    assert!(cmd.contains(&"-fsanitize=address".to_string()));
    assert!(cmd.contains(&"/opt/fuzz/bandfuzz-driver.o".to_string()));
}

#[test]
fn lone_fuzzer_token_never_serializes_as_empty_list() {
    let mut m = parse(&["main.o", "-fsanitize=fuzzer"]);
    let mut v = LibfuzzerVisitor::new(
        ResolvedObject::found("bandfuzz-driver.o", "/opt/fuzz/bandfuzz-driver.o"),
        ResolvedObject::found("bandfuzz-driver-libc++.o", "/opt/fuzz/bandfuzz-driver-libc++.o"),
    );
    v.visit(&mut m.options).unwrap();
    let record = m.options.iter().find(|o| o.name == "-fsanitize").unwrap();
    assert!(record.values.is_empty());
    assert!(!record.is_enabled);
    let cmd = m.get_command();
    assert!(!cmd.iter().any(|a| a.starts_with("-fsanitize")));
}

#[test]
fn flag_only_invocations_classify_as_checking_and_skip_attachment() {
    let mut m = parse(&["-E", "-dM"]);
    assert!(m.options.is_checking());
    assert!(m.options.is_preprocessor());

    let before = m.get_command();
    let mut rt = RuntimeVisitor::new(ResolvedObject::found("bandfuzz-rt.o", "/opt/fuzz/rt.o"));
    rt.visit(&mut m.options).unwrap();
    assert_eq!(m.get_command(), before);

    let mut lf = LibfuzzerVisitor::new(
        ResolvedObject::found("bandfuzz-driver.o", "/opt/fuzz/bandfuzz-driver.o"),
        ResolvedObject::found("bandfuzz-driver-libc++.o", "/opt/fuzz/bandfuzz-driver-libc++.o"),
    );
    lf.visit(&mut m.options).unwrap();
    assert_eq!(m.get_command(), before);
}

#[test]
fn indirection_file_tokens_preserve_quoted_spaces() {
    let tokens = tokenize_response("-O2 \"-Wl,-rpath=/a b\"");
    assert_eq!(tokens, vec!["-O2".to_string(), "-Wl,-rpath=/a b".to_string()]);
    let records: Vec<CompilerOption> =
        tokens.iter().map(|t| CompilerOption::from_arg(t)).collect();
    assert_eq!(records.len(), 2);
    assert_eq!(records[0].name, "-O2");
    assert_eq!(records[1].name, "-Wl,-rpath");
    assert_eq!(records[1].values, vec!["/a b".to_string()]);
}

#[test]
fn version_gating_selects_pass_loading_shape() {
    let pass = ResolvedObject::found("libArgFuzzPass.so", "/opt/fuzz/libArgFuzzPass.so");

    let mut m9 = parse(&[]);
    LLVMPassManager::new(9).add_llvm_pass(&mut m9.options, &pass).unwrap();
    assert_eq!(
        m9.get_command(),
        vec![
            "-Xclang".to_string(),
            "-load".to_string(),
            "-Xclang".to_string(),
            "/opt/fuzz/libArgFuzzPass.so".to_string(),
        ]
    );

    let mut m13 = parse(&[]);
    LLVMPassManager::new(13).add_llvm_pass(&mut m13.options, &pass).unwrap();
    assert_eq!(
        m13.get_command(),
        vec![
            "-fexperimental-new-pass-manager".to_string(),
            "-fpass-plugin=/opt/fuzz/libArgFuzzPass.so".to_string(),
        ]
    );

    let mut m17 = parse(&[]);
    LLVMPassManager::new(17).add_llvm_pass(&mut m17.options, &pass).unwrap();
    assert_eq!(
        m17.get_command(),
        vec!["-fpass-plugin=/opt/fuzz/libArgFuzzPass.so".to_string()]
    );

    let mut m99 = parse(&[]);
    let r = LLVMPassManager::new(99).add_llvm_pass(&mut m99.options, &pass);
    assert!(matches!(r, Err(RewriteError::UnsupportedVersion(99))));
}
