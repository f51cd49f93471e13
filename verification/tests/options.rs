use argus::compiler_option::{CompilerOption, OptionManagement};
use argus::error::RewriteError;
use argus::object::ResolvedObject;
use argus::option_manager::{check_if_option_exists, CompilerOptionManager};
use argus::option_visitors::default_optimization_visitor::parse_opt_level;
use argus::option_visitors::default_parameters_visitor::disable_unfriendly_options;
use argus::option_visitors::sanitizer_visitor::toggle_sanitizer;
use argus::option_visitors::{AdditionalObjectsVisitor, AdditionalPassesVisitor, CMDFuzzVisitor,
    DefaultParametersVisitor, InstrumentationVisitor, LibfuzzerVisitor, OptionVisitor,
    ProfileVisitor, RuntimeVisitor, SanitizerVisitor, TTRFuzzVisitor, XVisitor};
use argus::pipeline::{fsanitize_records_wf, run_pipeline, PipelineObjects, PipelineSettings};
use argus::text::{join_char, parse_u32, split_char, str_eq, str_starts_with, tokenize_response,
    trim};
use argus::toolchain::{parse_major_version, ToolchainInfo};

fn parse(args: &[&str]) -> CompilerOptionManager {
    CompilerOptionManager::new(args.iter().map(|a| a.to_string()).collect())
}

fn settings_off() -> PipelineSettings {
    PipelineSettings {
        add_driver: false,
        add_runtime: false,
        profiling: false,
        instrumentation: false,
        cmdfuzz: false,
        ttrfuzz: false,
        additional_passes: false,
        additional_objects: false,
        opt_level: None,
        nosanitizer: false,
        enable_asan: false,
        enable_msan: false,
        enable_ubsan: false,
        enable_cov: false,
    }
}

fn objects_missing() -> PipelineObjects {
    PipelineObjects {
        driver: ResolvedObject::missing("bandfuzz-driver.o"),
        libcxx_driver: ResolvedObject::missing("bandfuzz-driver-libc++.o"),
        runtime: ResolvedObject::missing("bandfuzz-rt.o"),
        cmdfuzz_pass: ResolvedObject::missing("libArgFuzzPass.so"),
        cmdfuzz_runtime: ResolvedObject::missing("bf-cmdfuzz.o"),
        ttr_pass: ResolvedObject::missing("libTTRPass.so"),
        additional_passes: vec![],
        additional_objects: vec![],
    }
}

#[test]
fn from_arg_splits_on_first_equals_and_commas() {
    let o = CompilerOption::from_arg("-fsanitize=address,thread");
    assert_eq!(o.name, "-fsanitize");
    assert_eq!(o.values, vec!["address".to_string(), "thread".to_string()]);
    assert!(o.has_value);
    assert!(o.is_enabled);

    let bare = CompilerOption::from_arg("main.c");
    assert_eq!(bare.name, "main.c");
    assert!(bare.values.is_empty());
    assert!(!bare.has_value);

    let nested = CompilerOption::from_arg("-DFOO=bar=baz");
    assert_eq!(nested.name, "-DFOO");
    assert_eq!(nested.values, vec!["bar=baz".to_string()]);
}

#[test]
fn add_or_modify_replaces_single_match_values() {
    let mut options = vec![CompilerOption::from_arg("-X=1")];
    options.add_or_modify(&CompilerOption::new_with_value("-X", vec!["2"]));
    assert_eq!(options.len(), 1);
    assert_eq!(options[0].values, vec!["2".to_string()]);

    options.add_or_modify(&CompilerOption::new("-Y"));
    assert_eq!(options.len(), 2);
    assert_eq!(options[1].name, "-Y");
}

#[test]
fn add_or_mix_merges_without_duplicates() {
    let mut options = vec![CompilerOption::from_arg("-fsanitize=address")];
    options.add_or_mix(&CompilerOption::from_arg("-fsanitize=address,memory"));
    assert_eq!(options.len(), 1);
    assert_eq!(options[0].values, vec!["address".to_string(), "memory".to_string()]);
}

#[test]
fn remove_last_value_disables_record() {
    let mut o = CompilerOption::from_arg("-fsanitize=fuzzer");
    o.remove_value("fuzzer");
    assert!(o.values.is_empty());
    assert!(!o.is_enabled);
    o.enable();
    assert!(o.is_enabled);
    o.disable();
    assert!(!o.is_enabled);
}

#[test]
fn get_command_renders_names_and_value_lists() {
    let m = parse(&["-fsanitize=address,thread", "-g", "main.c"]);
    assert_eq!(
        m.get_command(),
        vec![
            "-fsanitize=address,thread".to_string(),
            "-g".to_string(),
            "main.c".to_string(),
        ]
    );
}

#[test]
fn cleanup_drops_disabled_records() {
    let mut m = parse(&["-g", "-c"]);
    m.options[0].disable();
    m.cleanup();
    assert_eq!(m.options.len(), 1);
    assert_eq!(m.options[0].name, "-c");
    assert!(check_if_option_exists(&m.options, "-c"));
    assert!(!check_if_option_exists(&m.options, "-g"));
}

#[test]
fn mode_classification_on_compile_and_link_steps() {
    let m = parse(&["-c", "main.c"]);
    assert!(m.options.is_compiling());
    assert!(!m.options.is_preprocessor());
    assert!(!m.options.is_checking());

    let link = parse(&["main.o", "-lm"]);
    assert!(!link.options.is_compiling());
    assert!(!link.options.is_checking());
}

#[test]
fn default_parameters_disable_strict_linking_flags() {
    let mut m = parse(&["-Wl,-z,defs", "-z", "defs", "--no-undefined", "main.o"]);
    let mut v = DefaultParametersVisitor::new("/opt/llvm/lib");
    v.visit(&mut m.options).unwrap();
    let cmd = m.get_command();
    assert!(!cmd.contains(&"-Wl,-z,defs".to_string()));
    assert!(!cmd.contains(&"-z".to_string()));
    assert!(!cmd.contains(&"defs".to_string()));
    assert!(!cmd.contains(&"--no-undefined".to_string()));
    assert!(cmd.contains(&"-g".to_string()));
    assert!(cmd.contains(&"-fPIC".to_string()));
    assert!(cmd.contains(&"-Wno-unused-command-line-argument".to_string()));
    assert!(cmd.contains(&"-Wl,-rpath=/opt/llvm/lib".to_string()));
}

#[test]
fn rpath_is_omitted_for_default_search_paths() {
    let mut m = parse(&["main.o"]);
    let mut v = DefaultParametersVisitor::new("/usr/lib/llvm-14/lib");
    v.visit(&mut m.options).unwrap();
    let cmd = m.get_command();
    assert!(!cmd.iter().any(|a| a.starts_with("-Wl,-rpath")));
}

#[test]
fn stale_runtime_library_records_are_disabled() {
    let mut options = vec![
        CompilerOption::from_arg("-extra=bf-rt.o"),
        CompilerOption::from_arg("main.o"),
    ];
    disable_unfriendly_options(&mut options);
    assert!(!options[0].is_enabled);
    assert!(options[1].is_enabled);
}

#[test]
fn toggle_sanitizer_disable_strips_only_its_token() {
    let mut options = vec![CompilerOption::from_arg("-fsanitize=memory,address")];
    toggle_sanitizer(&mut options, false, "-fsanitize=memory", &vec![]);
    assert_eq!(options[0].values, vec!["address".to_string()]);
    assert!(options[0].is_enabled);
}

#[test]
fn x_visitor_appends_reset_pair() {
    let mut m = parse(&["-x", "c++", "main.c"]);
    let mut v = XVisitor::new();
    v.visit(&mut m.options).unwrap();
    let cmd = m.get_command();
    assert_eq!(cmd[cmd.len() - 2], "-x");
    assert_eq!(cmd[cmd.len() - 1], "none");

    let mut m2 = parse(&["main.c"]);
    let mut v2 = XVisitor::new();
    v2.visit(&mut m2.options).unwrap();
    assert_eq!(m2.get_command(), vec!["main.c".to_string()]);
}

#[test]
fn profile_visitor_appends_both_flags() {
    let mut m = parse(&["main.c"]);
    let mut v = ProfileVisitor::new();
    v.visit(&mut m.options).unwrap();
    let cmd = m.get_command();
    assert!(cmd.contains(&"-fprofile-instr-generate".to_string()));
    assert!(cmd.contains(&"-fcoverage-mapping".to_string()));
}

#[test]
fn runtime_visitor_attaches_runtime_and_system_libraries_once() {
    let mut m = parse(&["main.o", "-lpthread"]);
    let mut v = RuntimeVisitor::new(ResolvedObject::found("bandfuzz-rt.o", "/opt/fuzz/rt.o"));
    v.visit(&mut m.options).unwrap();
    let cmd = m.get_command();
    assert!(cmd.contains(&"/opt/fuzz/rt.o".to_string()));
    assert_eq!(cmd.iter().filter(|a| *a == "-lpthread").count(), 1);
    assert!(cmd.contains(&"-ldl".to_string()));
    assert!(cmd.contains(&"-lgcc".to_string()));
}

#[test]
fn missing_runtime_is_fatal_on_linking_invocations() {
    let mut m = parse(&["main.o"]);
    let mut v = RuntimeVisitor::new(ResolvedObject::missing("bandfuzz-rt.o"));
    let r = v.visit(&mut m.options);
    match r {
        Err(RewriteError::ObjectNotFound(name)) => assert_eq!(name, "bandfuzz-rt.o"),
        other => panic!("expected ObjectNotFound, got {:?}", other),
    }
}

#[test]
fn missing_driver_is_fatal_when_substitution_is_needed() {
    let mut m = parse(&["main.o", "-fsanitize=fuzzer"]);
    let mut v = LibfuzzerVisitor::new(
        ResolvedObject::missing("bandfuzz-driver.o"),
        ResolvedObject::missing("bandfuzz-driver-libc++.o"),
    );
    let r = v.visit(&mut m.options);
    assert!(matches!(r, Err(RewriteError::ObjectNotFound(_))));
}

#[test]
fn libcxx_variant_is_selected_by_stdlib_flag() {
    let mut m = parse(&["main.o", "-stdlib=libc++", "-fsanitize=fuzzer"]);
    let mut v = LibfuzzerVisitor::new(
        ResolvedObject::found("bandfuzz-driver.o", "/opt/fuzz/d.o"),
        ResolvedObject::found("bandfuzz-driver-libc++.o", "/opt/fuzz/dxx.o"),
    );
    v.visit(&mut m.options).unwrap();
    let cmd = m.get_command();
    assert!(cmd.contains(&"/opt/fuzz/dxx.o".to_string()));
    assert!(!cmd.contains(&"-lstdc++".to_string()));
}

#[test]
fn text_helpers_behave_like_std() {
    assert!(str_eq("abc", "abc"));
    assert!(!str_eq("abc", "abd"));
    assert!(str_starts_with("/usr/lib", "/usr"));
    assert!(!str_starts_with("/opt", "/usr"));
    assert_eq!(split_char("a,,b", ','), vec!["a", "", "b"]);
    assert_eq!(split_char("", ','), vec![""]);
    assert_eq!(
        join_char(&vec!["a".to_string(), "b".to_string(), "c".to_string()], ','),
        "a,b,c"
    );
    assert_eq!(trim("  14.0.6\n"), "14.0.6");
    assert_eq!(parse_u32("14"), Some(14));
    assert_eq!(parse_u32("+7"), Some(7));
    assert_eq!(parse_u32("abc"), None);
    assert_eq!(parse_u32(""), None);
    assert_eq!(parse_u32("99999999999999"), None);
}

#[test]
fn tokenizer_honors_escapes_and_single_quotes() {
    assert_eq!(tokenize_response("a\\ b c"), vec!["a b", "c"]);
    assert_eq!(tokenize_response("'x y' z\n\tw"), vec!["x y", "z", "w"]);
    assert_eq!(tokenize_response("   "), Vec::<String>::new());
}

#[test]
fn version_parsing_takes_major_component() {
    assert_eq!(parse_major_version("14.0.6\n"), Some(14));
    assert_eq!(parse_major_version("  9.0.1 "), Some(9));
    assert_eq!(parse_major_version("llvm"), None);
    assert_eq!(parse_opt_level("2"), Some(2));
    assert_eq!(parse_opt_level("4"), None);
    assert_eq!(parse_opt_level("x"), None);
}

#[test]
fn cmdfuzz_injects_pass_and_runtime_on_linking() {
    let mut m = parse(&["main.o"]);
    let mut v = CMDFuzzVisitor::new(
        17,
        true,
        ResolvedObject::found("libArgFuzzPass.so", "/opt/fuzz/pass.so"),
        ResolvedObject::found("bf-cmdfuzz.o", "/opt/fuzz/bf-cmdfuzz.o"),
    );
    v.visit(&mut m.options).unwrap();
    let cmd = m.get_command();
    assert!(cmd.contains(&"-fpass-plugin=/opt/fuzz/pass.so".to_string()));
    assert!(cmd.contains(&"/opt/fuzz/bf-cmdfuzz.o".to_string()));

    let mut m2 = parse(&["-c", "main.c"]);
    let mut v2 = CMDFuzzVisitor::new(
        17,
        true,
        ResolvedObject::found("libArgFuzzPass.so", "/opt/fuzz/pass.so"),
        ResolvedObject::found("bf-cmdfuzz.o", "/opt/fuzz/bf-cmdfuzz.o"),
    );
    v2.visit(&mut m2.options).unwrap();
    let cmd2 = m2.get_command();
    assert!(cmd2.contains(&"-fpass-plugin=/opt/fuzz/pass.so".to_string()));
    assert!(!cmd2.contains(&"/opt/fuzz/bf-cmdfuzz.o".to_string()));
}

#[test]
fn ttrfuzz_injects_pass_only_when_enabled() {
    let mut m = parse(&["main.o"]);
    let mut off = TTRFuzzVisitor::new(
        17,
        false,
        ResolvedObject::found("libTTRPass.so", "/opt/fuzz/ttr.so"),
    );
    off.visit(&mut m.options).unwrap();
    assert_eq!(m.get_command(), vec!["main.o".to_string()]);

    let mut on = TTRFuzzVisitor::new(
        9,
        true,
        ResolvedObject::found("libTTRPass.so", "/opt/fuzz/ttr.so"),
    );
    on.visit(&mut m.options).unwrap();
    let cmd = m.get_command();
    assert_eq!(
        cmd,
        vec![
            "main.o".to_string(),
            "-Xclang".to_string(),
            "-load".to_string(),
            "-Xclang".to_string(),
            "/opt/fuzz/ttr.so".to_string(),
        ]
    );
}

#[test]
fn additional_passes_abort_on_first_missing_object() {
    let mut m = parse(&[]);
    let mut v = AdditionalPassesVisitor::new(
        17,
        vec![
            ResolvedObject::found("SanCovPass.so", "/opt/fuzz/sancov.so"),
            ResolvedObject::missing("OtherPass.so"),
        ],
    );
    let r = v.visit(&mut m.options);
    match r {
        Err(RewriteError::ObjectNotFound(name)) => assert_eq!(name, "OtherPass.so"),
        other => panic!("expected ObjectNotFound, got {:?}", other),
    }
}

#[test]
fn additional_objects_merge_without_duplicates() {
    let mut m = parse(&["extra.o"]);
    let mut v = AdditionalObjectsVisitor::new(vec!["extra.o".to_string(), "more.o".to_string()]);
    v.visit(&mut m.options).unwrap();
    let cmd = m.get_command();
    assert_eq!(cmd.iter().filter(|a| *a == "extra.o").count(), 1);
    assert!(cmd.contains(&"more.o".to_string()));
}

#[test]
fn instrumentation_flag_follows_switch() {
    let mut m = parse(&["main.c"]);
    let mut off = InstrumentationVisitor::new(false);
    off.visit(&mut m.options).unwrap();
    assert!(!m.get_command().contains(&"-finstrument-functions".to_string()));
    let mut on = InstrumentationVisitor::new(true);
    on.visit(&mut m.options).unwrap();
    assert!(m.get_command().contains(&"-finstrument-functions".to_string()));
}

#[test]
fn get_options_returns_enabled_matches_in_order() {
    let m = parse(&["-fsanitize=address", "-g", "-fsanitize=fuzzer"]);
    let matches = m.options.get_options("-fsanitize");
    assert_eq!(matches.len(), 2);
    assert_eq!(matches[0].values, vec!["address".to_string()]);
    assert_eq!(matches[1].values, vec!["fuzzer".to_string()]);
}

#[test]
fn sanitizer_visitor_honors_global_disable() {
    let mut m = parse(&["-fsanitize=address,memory", "main.c"]);
    let mut v = SanitizerVisitor::with_env(true, true, true, true, false);
    v.visit(&mut m.options).unwrap();
    let record = m.options.iter().find(|o| o.name == "-fsanitize").unwrap();
    assert!(!record.is_enabled);
    assert!(m.get_command().iter().all(|a| !a.starts_with("-fsanitize=")));
}

#[test]
fn ubsan_brings_companion_flags() {
    let mut m = parse(&["main.c"]);
    let mut v = SanitizerVisitor::with_env(false, false, false, true, false);
    v.visit(&mut m.options).unwrap();
    let cmd = m.get_command();
    assert!(cmd.contains(&"-fsanitize=undefined".to_string()));
    assert!(cmd.contains(&"-fno-sanitize-recover=all".to_string()));
    assert!(cmd.contains(&"-fsanitize-undefined-trap-on-error".to_string()));
    assert!(cmd.contains(&"-fno-omit-frame-pointer".to_string()));
    assert!(cmd.contains(&"-U_FORTIFY_SOURCE".to_string()));
}

#[test]
fn pipeline_applies_mandatory_stages() {
    let mut m = parse(&["main.c", "-O2", "-O1"]);
    assert!(fsanitize_records_wf(&m.options));
    let toolchain = ToolchainInfo {
        major_version: 17,
        bindir: "/usr/bin".to_string(),
        libdir: "/usr/lib".to_string(),
    };
    run_pipeline(&mut m, &settings_off(), &toolchain, &objects_missing()).unwrap();
    let cmd = m.get_command();
    assert!(cmd.contains(&"-g".to_string()));
    assert!(cmd.contains(&"-fPIC".to_string()));
    assert!(cmd.contains(&"-O2".to_string()));
    assert!(!cmd.contains(&"-O1".to_string()));
    assert!(cmd.contains(&"main.c".to_string()));
}

#[test]
fn pipeline_reports_missing_runtime() {
    let mut m = parse(&["main.o"]);
    assert!(fsanitize_records_wf(&m.options));
    let toolchain = ToolchainInfo {
        major_version: 17,
        bindir: "/usr/bin".to_string(),
        libdir: "/usr/lib".to_string(),
    };
    let mut settings = settings_off();
    settings.add_runtime = true;
    let r = run_pipeline(&mut m, &settings, &toolchain, &objects_missing());
    assert!(matches!(r, Err(RewriteError::ObjectNotFound(_))));
}

#[test]
fn pipeline_rejects_valueless_fsanitize_record() {
    let m = parse(&["-fsanitize", "main.c"]);
    assert!(!fsanitize_records_wf(&m.options));
}
