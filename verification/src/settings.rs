//! The settings snapshot and its folds.
//!
//! Settings live in a key-value store.  A snapshot starts from the
//! defaults and folds the stored pairs over it, one known key at a time;
//! unknown keys are ignored.  An update produces the list of pairs to
//! write back.

use vstd::prelude::*;
use vstd::string::*;
use crate::models::Setting;
use crate::repeat_codec::{dec_digits, digits_value};
use crate::text::str_eq;
use crate::time::is_digit_char;

verus! {

/// The consumed settings, with their defaults.
#[derive(Debug)]
pub struct SettingsSnapshot {
    pub theme: String,
    pub launch_at_login: bool,
    pub minimize_to_tray: bool,
    pub show_notifications: bool,
    pub notification_sound: bool,
    pub default_volume: u8,
    pub announcement_enabled: bool,
    pub announcement_sound: String,
}

impl Clone for SettingsSnapshot {
    /// A clone denotes the same snapshot.
    fn clone(&self) -> (r: Self)
        ensures
            r == *self,
    {
        SettingsSnapshot {
            theme: self.theme.clone(),
            launch_at_login: self.launch_at_login,
            minimize_to_tray: self.minimize_to_tray,
            show_notifications: self.show_notifications,
            notification_sound: self.notification_sound,
            default_volume: self.default_volume,
            announcement_enabled: self.announcement_enabled,
            announcement_sound: self.announcement_sound.clone(),
        }
    }
}

/// The default snapshot: system theme, tray minimisation, notifications
/// with sound, volume eighty, no announcement, the spell clip.
pub open spec fn is_default_snapshot(d: SettingsSnapshot) -> bool {
    &&& d.theme@ == "system"@
    &&& d.launch_at_login == false
    &&& d.minimize_to_tray == true
    &&& d.show_notifications == true
    &&& d.notification_sound == true
    &&& d.default_volume == 80
    &&& d.announcement_enabled == false
    &&& d.announcement_sound@ == "spell"@
}

impl Default for SettingsSnapshot {
    /// The defaults before any stored pair is applied.
    fn default() -> (d: Self)
        ensures
            is_default_snapshot(d),
    {
        let mut theme = String::new();
        theme.append("system");
        let mut announcement_sound = String::new();
        announcement_sound.append("spell");
        SettingsSnapshot {
            theme,
            launch_at_login: false,
            minimize_to_tray: true,
            show_notifications: true,
            notification_sound: true,
            default_volume: 80,
            announcement_enabled: false,
            announcement_sound,
        }
    }
}

/// The digits of a number string, the optional leading plus dropped.
pub open spec fn u8_body(s: Seq<char>) -> Seq<char> {
    if s.len() > 0 && s[0] == '+' {
        s.drop_first()
    } else {
        s
    }
}

/// What Rust's parse of an unsigned byte accepts: an optional leading
/// plus, then digits whose value fits.
pub open spec fn parse_u8_spec(s: Seq<char>) -> Option<u8> {
    if u8_body(s).len() >= 1 && (forall|i: int|
        0 <= i < u8_body(s).len() ==> is_digit_char(#[trigger] u8_body(s)[i])) && digits_value(
        u8_body(s),
    ) <= 255 {
        Some(digits_value(u8_body(s)) as u8)
    } else {
        None
    }
}

/// Parses an unsigned byte as Rust's parse does.
pub fn parse_u8(s: &str) -> (r: Option<u8>)
    ensures
        r == parse_u8_spec(s@),
{
    let n = s.unicode_len();
    if n == 0 {
        return None;
    }
    let first = s.get_char(0);
    let start: usize = if first == '+' {
        1
    } else {
        0
    };
    let ghost body = u8_body(s@);
    proof {
        assert(body =~= s@.subrange(start as int, n as int));
    }
    if start >= n {
        return None;
    }
    let mut acc: u32 = 0;
    let mut i: usize = start;
    while i < n
        invariant
            start <= i <= n == s@.len() <= usize::MAX,
            start < n,
            body == s@.subrange(start as int, n as int),
            body == u8_body(s@),
            forall|j: int| start <= j < i ==> is_digit_char(#[trigger] s@[j]),
            acc == digits_value(body.subrange(0, i - start)),
            acc <= 255,
        decreases n - i,
    {
        let c = s.get_char(i);
        if !(c >= '0' && c <= '9') {
            proof {
                assert(body[i - start] == s@[i as int]);
                assert(!is_digit_char(body[i - start]));
            }
            return None;
        }
        let d = crate::repeat_codec::digit_of(c);
        proof {
            let a = body.subrange(0, i - start);
            let b = body.subrange(0, i + 1 - start);
            assert(b.drop_last() =~= a);
            assert(b.last() == s@[i as int]);
        }
        acc = acc * 10 + (d as u32);
        if acc > 255 {
            proof {
                if parse_u8_spec(s@) is Some {
                    assert(forall|j: int|
                        0 <= j < body.len() ==> is_digit_char(#[trigger] body[j]));
                    crate::repeat_codec::lemma_digits_value_prefix_mono(body, i + 1 - start);
                }
            }
            return None;
        }
        i += 1;
    }
    proof {
        assert(body.subrange(0, n - start) =~= body);
    }
    Some(acc as u8)
}

/// One stored pair applied over a snapshot: a known key replaces its
/// field, decoding booleans from the word `true` and clamping the volume
/// at one hundred; unknown keys and unparseable volumes change nothing.
pub open spec fn apply_setting(snap: SettingsSnapshot, s: Setting) -> SettingsSnapshot {
    if s.key@ == "theme"@ {
        SettingsSnapshot { theme: s.value, ..snap }
    } else if s.key@ == "launch_at_login"@ {
        SettingsSnapshot { launch_at_login: s.value@ == "true"@, ..snap }
    } else if s.key@ == "minimize_to_tray"@ {
        SettingsSnapshot { minimize_to_tray: s.value@ == "true"@, ..snap }
    } else if s.key@ == "show_notifications"@ {
        SettingsSnapshot { show_notifications: s.value@ == "true"@, ..snap }
    } else if s.key@ == "notification_sound"@ {
        SettingsSnapshot { notification_sound: s.value@ == "true"@, ..snap }
    } else if s.key@ == "default_volume"@ {
        match parse_u8_spec(s.value@) {
            Some(v) => SettingsSnapshot {
                default_volume: if v <= 100 {
                    v
                } else {
                    100
                },
                ..snap
            },
            None => snap,
        }
    } else if s.key@ == "announcement_enabled"@ {
        SettingsSnapshot { announcement_enabled: s.value@ == "true"@, ..snap }
    } else if s.key@ == "announcement_sound"@ {
        SettingsSnapshot { announcement_sound: s.value, ..snap }
    } else {
        snap
    }
}

/// The stored pairs folded over a snapshot, first to last.
pub open spec fn fold_settings(snap: SettingsSnapshot, records: Seq<Setting>) -> SettingsSnapshot
    decreases records.len(),
{
    if records.len() == 0 {
        snap
    } else {
        apply_setting(fold_settings(snap, records.drop_last()), records.last())
    }
}

/// Applies one stored pair.
fn apply_one(snap: SettingsSnapshot, s: Setting) -> (r: SettingsSnapshot)
    ensures
        r == apply_setting(snap, s),
{
    proof {
        reveal_strlit("theme");
        reveal_strlit("launch_at_login");
        reveal_strlit("minimize_to_tray");
        reveal_strlit("show_notifications");
        reveal_strlit("notification_sound");
        reveal_strlit("default_volume");
        reveal_strlit("announcement_enabled");
        reveal_strlit("announcement_sound");
        reveal_strlit("true");
    }
    let mut snap = snap;
    if str_eq(s.key.as_str(), "theme") {
        snap.theme = s.value;
    } else if str_eq(s.key.as_str(), "launch_at_login") {
        snap.launch_at_login = str_eq(s.value.as_str(), "true");
    } else if str_eq(s.key.as_str(), "minimize_to_tray") {
        snap.minimize_to_tray = str_eq(s.value.as_str(), "true");
    } else if str_eq(s.key.as_str(), "show_notifications") {
        snap.show_notifications = str_eq(s.value.as_str(), "true");
    } else if str_eq(s.key.as_str(), "notification_sound") {
        snap.notification_sound = str_eq(s.value.as_str(), "true");
    } else if str_eq(s.key.as_str(), "default_volume") {
        match parse_u8(s.value.as_str()) {
            Some(v) => {
                snap.default_volume = if v <= 100 {
                    v
                } else {
                    100
                };
            },
            None => {},
        }
    } else if str_eq(s.key.as_str(), "announcement_enabled") {
        snap.announcement_enabled = str_eq(s.value.as_str(), "true");
    } else if str_eq(s.key.as_str(), "announcement_sound") {
        snap.announcement_sound = s.value;
    }
    snap
}

impl SettingsSnapshot {
    /// Folds stored pairs over a snapshot, first to last.
    pub fn apply_records(base: SettingsSnapshot, records: Vec<Setting>) -> (snap:
        SettingsSnapshot)
        ensures
            snap == fold_settings(base, records@),
    {
        let ghost all = records@;
        let n_all = records.len();
        let ghost base_snap = base;
        let mut snap = base;
        let mut rest = records;
        let mut i: usize = 0;
        while rest.len() > 0
            invariant
                all.len() == n_all <= usize::MAX,
                i + rest@.len() == all.len(),
                rest@ == all.subrange(i as int, all.len() as int),
                snap == fold_settings(base_snap, all.subrange(0, i as int)),
            decreases rest@.len(),
        {
            let s = rest.remove(0);
            proof {
                assert(s == all[i as int]);
                assert(all.subrange(0, i + 1 as int).drop_last() =~= all.subrange(0, i as int));
                assert(all.subrange(0, i + 1 as int).last() == all[i as int]);
            }
            snap = apply_one(snap, s);
            proof {
                assert(rest@ =~= all.subrange(i + 1 as int, all.len() as int));
            }
            i += 1;
        }
        proof {
            assert(all.subrange(0, all.len() as int) =~= all);
        }
        snap
    }

    /// The snapshot of a list of stored pairs: the defaults with the pairs
    /// folded over them, first to last.
    pub fn from_records(records: Vec<Setting>) -> (snap: SettingsSnapshot)
        ensures
            exists|d: SettingsSnapshot|
                #[trigger] is_default_snapshot(d) && snap == fold_settings(d, records@),
    {
        let base = SettingsSnapshot::default();
        let ghost d = base;
        let snap = SettingsSnapshot::apply_records(base, records);
        proof {
            assert(is_default_snapshot(d) && snap == fold_settings(d, records@));
        }
        snap
    }
}

/// What a settings update request may change.
#[derive(Clone, Debug)]
pub struct UpdateSettingsPayload {
    pub theme: Option<String>,
    pub launch_at_login: Option<bool>,
    pub minimize_to_tray: Option<bool>,
    pub show_notifications: Option<bool>,
    pub notification_sound: Option<bool>,
    pub default_volume: Option<u8>,
}

/// The stored word for a boolean setting.
pub open spec fn bool_word(b: bool) -> Seq<char> {
    if b {
        "true"@
    } else {
        "false"@
    }
}

/// The pairs an update request writes back, in field order: each supplied
/// field with its key, booleans as words, the volume clamped at one
/// hundred and written in decimal.
pub open spec fn upsert_views(p: UpdateSettingsPayload) -> Seq<(Seq<char>, Seq<char>)> {
    (match p.theme {
        Some(t) => seq![("theme"@, t@)],
        None => Seq::empty(),
    }) + (match p.launch_at_login {
        Some(b) => seq![("launch_at_login"@, bool_word(b))],
        None => Seq::empty(),
    }) + (match p.minimize_to_tray {
        Some(b) => seq![("minimize_to_tray"@, bool_word(b))],
        None => Seq::empty(),
    }) + (match p.show_notifications {
        Some(b) => seq![("show_notifications"@, bool_word(b))],
        None => Seq::empty(),
    }) + (match p.notification_sound {
        Some(b) => seq![("notification_sound"@, bool_word(b))],
        None => Seq::empty(),
    }) + (match p.default_volume {
        Some(v) => seq![
            ("default_volume"@, dec_digits(if v <= 100 {
                v as int
            } else {
                100
            })),
        ],
        None => Seq::empty(),
    })
}

/// Builds the stored word of a boolean.
fn bool_string(b: bool) -> (r: String)
    ensures
        r@ == bool_word(b),
{
    let mut r = String::new();
    if b {
        r.append("true");
    } else {
        r.append("false");
    }
    r
}

/// Builds a key string.
fn key_string(k: &str) -> (r: String)
    ensures
        r@ == k@,
{
    let mut r = String::new();
    r.append(k);
    r
}

/// The pairs an update request writes back to the settings store.
pub fn settings_upserts(payload: UpdateSettingsPayload) -> (r: Vec<(String, String)>)
    ensures
        r@.map_values(|p: (String, String)| (p.0@, p.1@)) == upsert_views(payload),
{
    let ghost expected = upsert_views(payload);
    let mut r: Vec<(String, String)> = Vec::new();
    match payload.theme {
        Some(t) => {
            r.push((key_string("theme"), t));
        },
        None => {},
    }
    match payload.launch_at_login {
        Some(b) => {
            r.push((key_string("launch_at_login"), bool_string(b)));
        },
        None => {},
    }
    match payload.minimize_to_tray {
        Some(b) => {
            r.push((key_string("minimize_to_tray"), bool_string(b)));
        },
        None => {},
    }
    match payload.show_notifications {
        Some(b) => {
            r.push((key_string("show_notifications"), bool_string(b)));
        },
        None => {},
    }
    match payload.notification_sound {
        Some(b) => {
            r.push((key_string("notification_sound"), bool_string(b)));
        },
        None => {},
    }
    match payload.default_volume {
        Some(v) => {
            let clamped: u8 = if v <= 100 {
                v
            } else {
                100
            };
            let mut value = String::new();
            crate::repeat_codec::append_decimal(&mut value, clamped as u32);
            r.push((key_string("default_volume"), value));
        },
        None => {},
    }
    proof {
        assert(r@.map_values(|p: (String, String)| (p.0@, p.1@)) =~= expected);
    }
    r
}

} // verus!
