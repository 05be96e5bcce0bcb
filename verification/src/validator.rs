//! Audio-file validation.
//!
//! The filesystem and the decoder are read outside the library; their
//! observations arrive here as plain values ([`FileProbe`], [`DecodeProbe`])
//! and every decision about them — existence, size limit, extension
//! whitelist, decodability — is made by the functions of this module.

use vstd::prelude::*;
use vstd::string::*;
use crate::errors::AudioValidationError;
use crate::text::{lower_chars, lower_substring, str_eq};

verus! {

/// Largest accepted file size unless configured otherwise: 512 MiB.
pub const DEFAULT_MAX_FILE_SIZE_BYTES: u64 = 512 * 1024 * 1024;

/// What the filesystem reported about a requested path.
#[derive(Clone, Debug)]
pub struct FileProbe {
    /// Whether the path resolved to an existing filesystem object.
    pub found: bool,
    /// An I/O failure other than absence, with its message.
    pub io_error: Option<String>,
    /// The canonicalised path.
    pub canonical_path: String,
    /// Whether the object is a regular file.
    pub is_file: bool,
    /// Its size in bytes.
    pub size_bytes: u64,
}

/// What probing the file with the audio decoder reported.
#[derive(Clone, Debug)]
pub enum DecodeProbe {
    /// The decoder accepted the file.
    Decoded { duration_ms: Option<u64>, sample_rate: u32, channels: u16 },
    /// The decoder rejected the file, or its construction panicked.
    Failed { message: String },
}

/// Metadata of a validated audio file.
#[derive(Debug)]
pub struct AudioFileMetadata {
    pub path: String,
    pub file_name: String,
    pub extension: String,
    pub duration_ms: Option<u64>,
    pub sample_rate: u32,
    pub channels: u16,
    pub size_bytes: u64,
}

impl Clone for AudioFileMetadata {
    /// A clone denotes the same metadata.
    fn clone(&self) -> (r: Self)
        ensures
            r == *self,
    {
        AudioFileMetadata {
            path: self.path.clone(),
            file_name: self.file_name.clone(),
            extension: self.extension.clone(),
            duration_ms: self.duration_ms.clone(),
            sample_rate: self.sample_rate,
            channels: self.channels,
            size_bytes: self.size_bytes,
        }
    }
}

/// The path checks that pass before the file is handed to the decoder.
#[derive(Clone, Debug)]
pub struct CheckedAudioFile {
    /// The canonicalised path.
    pub canonical_path: String,
    /// The final path component.
    pub file_name: String,
    /// The lowercased extension, known to be supported.
    pub extension: String,
    /// The file size in bytes.
    pub size_bytes: u64,
}

/// Index of the last occurrence of a character, or -1.
pub open spec fn last_index_of(s: Seq<char>, c: char) -> int
    decreases s.len(),
{
    if s.len() == 0 {
        -1
    } else if s.last() == c {
        s.len() - 1
    } else {
        last_index_of(s.drop_last(), c)
    }
}

/// The final component of a path: everything after the last slash.
pub open spec fn file_name_of(p: Seq<char>) -> Seq<char> {
    p.subrange(last_index_of(p, '/') + 1, p.len() as int)
}

/// The extension of a path: the part of the file name after its last dot.
/// A name without a dot, or whose only dot leads it, has none.
pub open spec fn extension_of(p: Seq<char>) -> Option<Seq<char>> {
    let name = file_name_of(p);
    let dot = last_index_of(name, '.');
    if dot <= 0 {
        None
    } else {
        Some(name.subrange(dot + 1, name.len() as int))
    }
}

/// The supported audio formats, by lowercased extension.
pub open spec fn is_supported_extension(ext: Seq<char>) -> bool {
    ||| ext == "mp3"@
    ||| ext == "wav"@
    ||| ext == "flac"@
    ||| ext == "ogg"@
    ||| ext == "oga"@
    ||| ext == "m4a"@
    ||| ext == "aac"@
}

/// The last-occurrence index of the whole string is within it.
proof fn lemma_last_index_of_range(s: Seq<char>, c: char)
    ensures
        -1 <= last_index_of(s, c) < s.len(),
        last_index_of(s, c) >= 0 ==> s[last_index_of(s, c)] == c,
        forall|j: int| last_index_of(s, c) < j < s.len() ==> s[j] != c,
    decreases s.len(),
{
    if s.len() > 0 && s.last() != c {
        lemma_last_index_of_range(s.drop_last(), c);
        assert forall|j: int| last_index_of(s, c) < j < s.len() implies s[j] != c by {
            if j < s.len() - 1 {
                assert(s.drop_last()[j] == s[j]);
            }
        };
    }
}

/// Finds the index of the last occurrence of a character.
fn find_last(s: &str, c: char) -> (r: Option<usize>)
    ensures
        (match r {
            Some(i) => i as int,
            None => -1,
        }) == last_index_of(s@, c),
{
    let n = s.unicode_len();
    let mut best: Option<usize> = None;
    let mut i: usize = 0;
    while i < n
        invariant
            0 <= i <= n == s@.len() <= usize::MAX,
            (match best {
                Some(b) => b as int,
                None => -1,
            }) == last_index_of(s@.subrange(0, i as int), c),
            best matches Some(b) ==> b < i,
        decreases n - i,
    {
        let x = s.get_char(i);
        proof {
            let prev = s@.subrange(0, i as int);
            let cur = s@.subrange(0, i + 1 as int);
            assert(cur.drop_last() =~= prev);
            assert(cur.last() == s@[i as int]);
        }
        if x == c {
            best = Some(i);
        }
        i += 1;
    }
    proof {
        assert(s@.subrange(0, n as int) =~= s@);
    }
    best
}

/// The audio-file validator: the path rules and the size limit.
#[derive(Clone, Debug)]
pub struct AudioValidator {
    /// The largest accepted file size in bytes.
    pub max_file_size_bytes: u64,
}

impl Default for AudioValidator {
    /// A validator with the default size limit.
    fn default() -> (v: Self)
        ensures
            v.max_file_size_bytes == DEFAULT_MAX_FILE_SIZE_BYTES,
    {
        AudioValidator { max_file_size_bytes: DEFAULT_MAX_FILE_SIZE_BYTES }
    }
}

impl AudioValidator {
    /// A validator with the given size limit.
    pub fn new(max_file_size_bytes: u64) -> (v: Self)
        ensures
            v.max_file_size_bytes == max_file_size_bytes,
    {
        AudioValidator { max_file_size_bytes }
    }

    /// Checks the filesystem observations of a path: the file must exist,
    /// be a regular file, be within the size limit and carry a supported
    /// extension.  Each error names its cause: absence reports the
    /// requested path, the size check the canonical path and both sizes,
    /// the extension check the lowercased extension (empty when the name
    /// has none).
    pub fn validate(&self, requested_path: &str, probe: FileProbe) -> (r: Result<
        CheckedAudioFile,
        AudioValidationError,
    >)
        ensures
            match r {
                Ok(c) => {
                    &&& probe.found
                    &&& probe.io_error is None
                    &&& probe.is_file
                    &&& probe.size_bytes <= self.max_file_size_bytes
                    &&& (match extension_of(probe.canonical_path@) {
                        Some(x) => is_supported_extension(lower_chars(x)) && c.extension@
                            == lower_chars(x),
                        None => false,
                    })
                    &&& c.canonical_path == probe.canonical_path
                    &&& c.file_name@ == file_name_of(probe.canonical_path@)
                    &&& c.size_bytes == probe.size_bytes
                },
                Err(e) => match e {
                    AudioValidationError::NotFound(p) => !probe.found && p@ == requested_path@,
                    AudioValidationError::Io(m) => probe.found && probe.io_error == Some(m),
                    AudioValidationError::Decode(m) => {
                        &&& probe.found
                        &&& probe.io_error is None
                        &&& !probe.is_file
                        &&& m@ == "path does not point to a file"@
                    },
                    AudioValidationError::FileTooLarge { path, file_bytes, max_bytes } => {
                        &&& probe.found
                        &&& probe.io_error is None
                        &&& probe.is_file
                        &&& probe.size_bytes > self.max_file_size_bytes
                        &&& path == probe.canonical_path
                        &&& file_bytes == probe.size_bytes
                        &&& max_bytes == self.max_file_size_bytes
                    },
                    AudioValidationError::UnsupportedFormat { extension } => {
                        &&& probe.found
                        &&& probe.io_error is None
                        &&& probe.is_file
                        &&& probe.size_bytes <= self.max_file_size_bytes
                        &&& (match extension_of(probe.canonical_path@) {
                            Some(x) => !is_supported_extension(lower_chars(x)) && extension@
                                == lower_chars(x),
                            None => extension@.len() == 0,
                        })
                    },
                },
            },
    {
        if !probe.found {
            let mut p = String::new();
            p.append(requested_path);
            return Err(AudioValidationError::NotFound(p));
        }
        match probe.io_error {
            Some(m) => {
                return Err(AudioValidationError::Io(m));
            },
            None => {},
        }
        if !probe.is_file {
            let mut m = String::new();
            m.append("path does not point to a file");
            return Err(AudioValidationError::Decode(m));
        }
        if probe.size_bytes > self.max_file_size_bytes {
            return Err(
                AudioValidationError::FileTooLarge {
                    path: probe.canonical_path,
                    file_bytes: probe.size_bytes,
                    max_bytes: self.max_file_size_bytes,
                },
            );
        }
        let path = probe.canonical_path.as_str();
        let n = path.unicode_len();
        proof {
            lemma_last_index_of_range(path@, '/');
        }
        let name_start: usize = match find_last(path, '/') {
            Some(i) => i + 1,
            None => 0,
        };
        let file_name = path.substring_char(name_start, n);
        proof {
            assert(file_name@ == file_name_of(path@));
        }
        let file_name_owned = String::from_str(file_name);
        let dot = find_last(file_name, '.');
        let ext_lower: Option<String> = match dot {
            Some(d) if d > 0 => {
                let fn_len = file_name.unicode_len();
                proof {
                    lemma_last_index_of_range(file_name@, '.');
                }
                Some(lower_substring(file_name, d + 1, fn_len))
            },
            _ => None,
        };
        let ext = match ext_lower {
            Some(ext) => ext,
            None => {
                return Err(
                    AudioValidationError::UnsupportedFormat { extension: String::new() },
                );
            },
        };
        proof {
            reveal_strlit("mp3");
            reveal_strlit("wav");
            reveal_strlit("flac");
            reveal_strlit("ogg");
            reveal_strlit("oga");
            reveal_strlit("m4a");
            reveal_strlit("aac");
        }
        let supported = str_eq(ext.as_str(), "mp3") || str_eq(ext.as_str(), "wav") || str_eq(
            ext.as_str(),
            "flac",
        ) || str_eq(ext.as_str(), "ogg") || str_eq(ext.as_str(), "oga") || str_eq(
            ext.as_str(),
            "m4a",
        ) || str_eq(ext.as_str(), "aac");
        if !supported {
            return Err(AudioValidationError::UnsupportedFormat { extension: ext });
        }
        Ok(
            CheckedAudioFile {
                canonical_path: probe.canonical_path,
                file_name: file_name_owned,
                extension: ext,
                size_bytes: probe.size_bytes,
            },
        )
    }

    /// Combines the path checks with what the decoder reported: a
    /// rejected file gives a decode error with the decoder's message, an
    /// accepted one gives the complete metadata.
    pub fn complete(checked: CheckedAudioFile, decode: DecodeProbe) -> (r: Result<
        AudioFileMetadata,
        AudioValidationError,
    >)
        ensures
            match r {
                Ok(m) => match decode {
                    DecodeProbe::Decoded { duration_ms, sample_rate, channels } => {
                        &&& m.path == checked.canonical_path
                        &&& m.file_name == checked.file_name
                        &&& m.extension == checked.extension
                        &&& m.duration_ms == duration_ms
                        &&& m.sample_rate == sample_rate
                        &&& m.channels == channels
                        &&& m.size_bytes == checked.size_bytes
                    },
                    DecodeProbe::Failed { .. } => false,
                },
                Err(e) => match e {
                    AudioValidationError::Decode(m) => decode == (DecodeProbe::Failed {
                        message: m,
                    }),
                    _ => false,
                },
            },
    {
        match decode {
            DecodeProbe::Decoded { duration_ms, sample_rate, channels } => Ok(
                AudioFileMetadata {
                    path: checked.canonical_path,
                    file_name: checked.file_name,
                    extension: checked.extension,
                    duration_ms,
                    sample_rate,
                    channels,
                    size_bytes: checked.size_bytes,
                },
            ),
            DecodeProbe::Failed { message } => Err(AudioValidationError::Decode(message)),
        }
    }
}

} // verus!
