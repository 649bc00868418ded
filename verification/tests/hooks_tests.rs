use wg_conf::hooks::{hook_command_is_set, hook_result, ProcessOutput, RegistrationHooks};

#[test]
fn it_works() {
    assert_eq!(2 + 2, 4);
}

#[test]
fn new_hooks_run_nothing() {
    let hooks = RegistrationHooks::new();
    assert_eq!(hooks.pre_register, "");
    assert_eq!(hooks.post_register, "");
    assert!(!hook_command_is_set(hooks.pre_register.as_str()));
    assert!(hook_command_is_set("echo hi"));
}

#[test]
fn successful_hook_gives_its_output() {
    let out = ProcessOutput {
        success: true,
        stdout: "done\n".to_string(),
        stderr: "warning\n".to_string(),
        status: "exit status: 0".to_string(),
    };
    match hook_result(out) {
        Ok(s) => assert_eq!(s, "done\n"),
        Err(_) => panic!("expected success"),
    }
}

#[test]
fn failed_hook_gives_error_and_output() {
    let out = ProcessOutput {
        success: false,
        stdout: "partial".to_string(),
        stderr: "broken;".to_string(),
        status: "exit status: 2".to_string(),
    };
    match hook_result(out) {
        Ok(_) => panic!("expected failure"),
        Err(e) => {
            assert_eq!(e.output, "broken;partial");
            assert_eq!(e.exit_code, "exit status: 2");
            assert_eq!(e.message(), "exit status: 2 broken;partial");
        }
    }
}
