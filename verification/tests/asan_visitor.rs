use argus::compiler_option::CompilerOption;
use argus::option_visitors::{AsanVisitor, OptionVisitor};

#[test]
fn test_asan_visitor_adds_address_if_missing() {
    let mut options = vec![];
    let mut visitor = AsanVisitor::new();
    visitor.visit(&mut options).unwrap();

    assert_eq!(options.len(), 1);
    assert_eq!(options[0].name, "-fsanitize");
    assert_eq!(options[0].values.join(","), "address");
}

#[test]
fn test_asan_visitor_updates_existing_fsanitize_without_address() {
    let mut options = vec![CompilerOption::from_arg("-fsanitize=thread")];
    let mut visitor = AsanVisitor::new();
    visitor.visit(&mut options).unwrap();

    assert_eq!(options.len(), 1);
    assert_eq!(options[0].name, "-fsanitize");
    assert_eq!(options[0].values.join(","), "thread,address");
}

#[test]
fn test_asan_visitor_does_not_duplicate_address_in_fsanitize() {
    let mut options = vec![CompilerOption::from_arg("-fsanitize=address,thread")];
    let mut visitor = AsanVisitor::new();
    visitor.visit(&mut options).unwrap();

    assert_eq!(options.len(), 1);
    assert_eq!(options[0].name, "-fsanitize");
    assert_eq!(options[0].values.join(","), "address,thread");
    let address_count = options[0].values.join(",").matches("address").count();
    assert_eq!(address_count, 1);
}
