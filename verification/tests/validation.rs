use resonatify::errors::AudioValidationError;
use resonatify::validator::{
    AudioValidator, DecodeProbe, FileProbe, DEFAULT_MAX_FILE_SIZE_BYTES,
};

fn probe_of(canonical_path: &str, size_bytes: u64) -> FileProbe {
    FileProbe {
        found: true,
        io_error: None,
        canonical_path: canonical_path.to_string(),
        is_file: true,
        size_bytes,
    }
}

#[test]
fn validates_supported_file() {
    let validator = AudioValidator::default();
    let checked = validator
        .validate("/tmp/audio/test.wav", probe_of("/tmp/audio/test.wav", 44_144))
        .unwrap();
    let metadata = AudioValidator::complete(
        checked,
        DecodeProbe::Decoded {
            duration_ms: Some(500),
            sample_rate: 44_100,
            channels: 1,
        },
    )
    .unwrap();

    assert_eq!(metadata.file_name, "test.wav");
    assert_eq!(metadata.extension, "wav");
    assert!(metadata.duration_ms.unwrap_or(0) > 0);
    assert_eq!(metadata.sample_rate, 44_100);
    assert_eq!(metadata.channels, 1);
}

#[test]
fn rejects_unsupported_extension() {
    let validator = AudioValidator::default();
    let err = validator
        .validate("/tmp/notes.txt", probe_of("/tmp/notes.txt", 5))
        .unwrap_err();

    match err {
        AudioValidationError::UnsupportedFormat { extension } => {
            assert_eq!(extension, "txt");
        }
        other => panic!("unexpected error: {other:?}"),
    }
}

#[test]
fn rejects_too_large_file() {
    let validator = AudioValidator::new(1);
    let err = validator
        .validate("/tmp/big.wav", probe_of("/tmp/big.wav", 100))
        .unwrap_err();

    match err {
        AudioValidationError::FileTooLarge { .. } => {}
        other => panic!("unexpected error: {other:?}"),
    }
}

#[test]
fn rejects_missing_file() {
    let validator = AudioValidator::default();
    let probe = FileProbe {
        found: false,
        io_error: None,
        canonical_path: String::new(),
        is_file: false,
        size_bytes: 0,
    };
    let err = validator
        .validate("/tmp/non-existent-file.wav", probe)
        .unwrap_err();

    match err {
        AudioValidationError::NotFound(path) => {
            assert_eq!(path, "/tmp/non-existent-file.wav");
        }
        other => panic!("unexpected error: {other:?}"),
    }
}

#[test]
fn size_boundary_is_exact() {
    // A file of exactly the limit passes the size check; one byte more
    // fails it.
    let validator = AudioValidator::default();
    let at_limit = validator.validate(
        "/tmp/limit.wav",
        probe_of("/tmp/limit.wav", DEFAULT_MAX_FILE_SIZE_BYTES),
    );
    assert!(at_limit.is_ok());

    let over = validator
        .validate(
            "/tmp/limit.wav",
            probe_of("/tmp/limit.wav", DEFAULT_MAX_FILE_SIZE_BYTES + 1),
        )
        .unwrap_err();
    match over {
        AudioValidationError::FileTooLarge {
            path,
            file_bytes,
            max_bytes,
        } => {
            assert_eq!(path, "/tmp/limit.wav");
            assert_eq!(file_bytes, DEFAULT_MAX_FILE_SIZE_BYTES + 1);
            assert_eq!(max_bytes, DEFAULT_MAX_FILE_SIZE_BYTES);
        }
        other => panic!("unexpected error: {other:?}"),
    }
}

#[test]
fn uppercase_extension_is_lowercased() {
    let validator = AudioValidator::default();
    let checked = validator
        .validate("/tmp/Loud.MP3", probe_of("/tmp/Loud.MP3", 10))
        .unwrap();
    assert_eq!(checked.extension, "mp3");
    assert_eq!(checked.file_name, "Loud.MP3");
}

#[test]
fn missing_extension_reports_empty() {
    let validator = AudioValidator::default();
    let err = validator
        .validate("/tmp/noext", probe_of("/tmp/noext", 10))
        .unwrap_err();
    match err {
        AudioValidationError::UnsupportedFormat { extension } => {
            assert_eq!(extension, "");
        }
        other => panic!("unexpected error: {other:?}"),
    }

    // A leading dot alone is not an extension.
    let err = validator
        .validate("/tmp/.hidden", probe_of("/tmp/.hidden", 10))
        .unwrap_err();
    match err {
        AudioValidationError::UnsupportedFormat { extension } => {
            assert_eq!(extension, "");
        }
        other => panic!("unexpected error: {other:?}"),
    }
}

#[test]
fn directory_is_rejected_as_decode_error() {
    let validator = AudioValidator::default();
    let mut probe = probe_of("/tmp/somedir", 0);
    probe.is_file = false;
    let err = validator.validate("/tmp/somedir", probe).unwrap_err();
    match err {
        AudioValidationError::Decode(_) => {}
        other => panic!("unexpected error: {other:?}"),
    }
}

#[test]
fn decoder_failure_is_reported() {
    let validator = AudioValidator::default();
    let checked = validator
        .validate("/tmp/bad.ogg", probe_of("/tmp/bad.ogg", 10))
        .unwrap();
    let err = AudioValidator::complete(
        checked,
        DecodeProbe::Failed {
            message: "failed to decode audio file".to_string(),
        },
    )
    .unwrap_err();
    match err {
        AudioValidationError::Decode(message) => {
            assert_eq!(message, "failed to decode audio file");
        }
        other => panic!("unexpected error: {other:?}"),
    }
}

#[test]
fn io_error_is_passed_through() {
    let validator = AudioValidator::default();
    let probe = FileProbe {
        found: true,
        io_error: Some("permission denied".to_string()),
        canonical_path: "/tmp/secret.wav".to_string(),
        is_file: true,
        size_bytes: 10,
    };
    let err = validator.validate("/tmp/secret.wav", probe).unwrap_err();
    match err {
        AudioValidationError::Io(message) => {
            assert_eq!(message, "permission denied");
        }
        other => panic!("unexpected error: {other:?}"),
    }
}
