use elf2nucleus::dispatch::{
    decimal_string, flash_outcome, flasher_args, objcopy_args, plan_dispatch, resolve_invocation,
    Destination, FlashPlan, FlashRequest, Invocation,
};
use elf2nucleus::image::PipelineError;

#[test]
fn decimal_rendering() {
    assert_eq!(decimal_string(0), "0");
    assert_eq!(decimal_string(5), "5");
    assert_eq!(decimal_string(10), "10");
    assert_eq!(decimal_string(12345), "12345");
    assert_eq!(decimal_string(u64::MAX), "18446744073709551615");
}

#[test]
fn flasher_args_with_timeout() {
    let args = flasher_args(Some(5));
    assert_eq!(
        args,
        vec!["--timeout", "5", "--type", "raw", "--run", "--no-ansi", "-"]
    );
}

#[test]
fn flasher_args_without_timeout() {
    let args = flasher_args(None);
    assert_eq!(args, vec!["--type", "raw", "--run", "--no-ansi", "-"]);
}

#[test]
fn objcopy_args_name_the_input() {
    let args = objcopy_args("firmware.elf");
    assert_eq!(
        args,
        vec!["--output-target=ihex", "firmware.elf", "/dev/stdout"]
    );
}

#[test]
fn file_destination_plans_a_write() {
    let request = FlashRequest {
        destination: Destination::File {
            path: String::from("out.bin"),
        },
        discovery_timeout: Some(9),
    };
    match plan_dispatch(&request) {
        FlashPlan::WriteFile { path } => assert_eq!(path, "out.bin"),
        FlashPlan::RunFlasher { .. } => panic!("expected a file write"),
    }
}

#[test]
fn device_destination_plans_the_flasher() {
    let request = FlashRequest {
        destination: Destination::Device,
        discovery_timeout: Some(5),
    };
    match plan_dispatch(&request) {
        FlashPlan::WriteFile { .. } => panic!("expected a flasher run"),
        FlashPlan::RunFlasher { args } => assert_eq!(
            args,
            vec!["--timeout", "5", "--type", "raw", "--run", "--no-ansi", "-"]
        ),
    }
}

#[test]
fn usage_requires_input_or_completions() {
    assert!(matches!(
        resolve_invocation(true, false),
        Ok(Invocation::Convert)
    ));
    assert!(matches!(
        resolve_invocation(false, true),
        Ok(Invocation::Completions)
    ));
    assert!(matches!(
        resolve_invocation(false, false),
        Err(PipelineError::UsageError)
    ));
    assert!(matches!(
        resolve_invocation(true, true),
        Err(PipelineError::UsageError)
    ));
}

#[test]
fn flash_exit_status_is_surfaced() {
    assert_eq!(flash_outcome(true, Some(0)), Ok(()));
    assert_eq!(
        flash_outcome(false, Some(2)),
        Err(PipelineError::ExternalToolFailed { code: Some(2) })
    );
    assert_eq!(
        flash_outcome(false, None),
        Err(PipelineError::ExternalToolFailed { code: None })
    );
}
