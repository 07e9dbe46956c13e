//! Tests of the decompression capability's decision logic.

use flashimage::ucl::{check_decompress_input, probe_sizes, DecompressError, UclErrorKind};

#[test]
fn codes_map_to_their_kinds() {
    assert_eq!(UclErrorKind::from_code(-2), UclErrorKind::InvalidArgument);
    assert_eq!(UclErrorKind::from_code(-3), UclErrorKind::OutOfMemory);
    assert_eq!(UclErrorKind::from_code(-101), UclErrorKind::NotCompressible);
    assert_eq!(UclErrorKind::from_code(-201), UclErrorKind::InputOverrun);
    assert_eq!(UclErrorKind::from_code(-202), UclErrorKind::OutputOverrun);
    assert_eq!(UclErrorKind::from_code(-203), UclErrorKind::LookbehindOverrun);
    assert_eq!(UclErrorKind::from_code(-204), UclErrorKind::EofNotFound);
    assert_eq!(UclErrorKind::from_code(-205), UclErrorKind::InputNotConsumed);
    assert_eq!(UclErrorKind::from_code(-206), UclErrorKind::OverlapOverrun);
    assert_eq!(UclErrorKind::from_code(-1), UclErrorKind::GenericError);
    assert_eq!(UclErrorKind::from_code(0), UclErrorKind::GenericError);
    assert_eq!(UclErrorKind::from_code(-999), UclErrorKind::GenericError);
}

#[test]
fn only_output_overrun_is_retryable() {
    assert!(UclErrorKind::OutputOverrun.is_retryable());
    assert!(!UclErrorKind::GenericError.is_retryable());
    assert!(!UclErrorKind::InputOverrun.is_retryable());
    assert!(!UclErrorKind::OutOfMemory.is_retryable());
    assert!(!UclErrorKind::DstTooSmall.is_retryable());
}

#[test]
fn messages_name_the_failure() {
    assert_eq!(UclErrorKind::InvalidArgument.message(), "invalid argument");
    assert_eq!(UclErrorKind::OutputOverrun.message(), "output overrun");
    assert_eq!(UclErrorKind::LookbehindOverrun.message(), "look-behind overrun");
    assert_eq!(UclErrorKind::EofNotFound.message(), "EOF not found");
    assert_eq!(UclErrorKind::GenericError.message(), "generic UCL error");
}

#[test]
fn input_validation_rejects_the_unusable() {
    assert_eq!(check_decompress_input(0), Err(DecompressError::EmptyInput));
    assert_eq!(check_decompress_input(1), Err(DecompressError::InputTooSmall));
    assert_eq!(check_decompress_input(3), Err(DecompressError::InputTooSmall));
    assert_eq!(check_decompress_input(4), Ok(()));
    assert_eq!(check_decompress_input(104857600), Ok(()));
    assert_eq!(
        check_decompress_input(104857601),
        Err(DecompressError::InputTooLarge)
    );
}

#[test]
fn probe_schedule_scales_with_the_input() {
    assert_eq!(
        probe_sizes(1000),
        vec![20000, 50000, 100000, 10485760, 52428800]
    );
}

#[test]
fn probe_schedule_skips_sizes_over_the_ceiling() {
    assert_eq!(probe_sizes(104857600), vec![10485760, 52428800]);
    assert_eq!(
        probe_sizes(10485760),
        vec![209715200, 10485760, 52428800]
    );
}
