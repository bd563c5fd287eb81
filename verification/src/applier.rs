//! Applying stored settings to the live window: display mode from
//! `cl_fullscreen`, pixel size from `cl_resolution`, vsync from `cl_vsync`.
//! A resolution that does not parse leaves the window's size untouched on
//! both axes. The vsync default for a missing key differs between the
//! startup pass (off) and the in-menu apply (on): the two passes disagree,
//! and both contracts state their own default.

use vstd::prelude::*;
use crate::config::{lookup, GameConfig};
use crate::text::{
    all_digits, digit_val, digits_val, find_char, is_digit, is_digit_char,
    lemma_split_at_first_found, lemma_split_at_first_none, split_at_first,
};

verus! {

/// How the window fills the screen.
#[derive(Clone, Copy, PartialEq, Eq, Structural, Debug)]
pub enum WindowMode {
    Windowed,
    Fullscreen,
}

/// The live window surface as the applier sees it: mode, pixel size, and
/// whether presentation waits for vsync.
#[derive(Clone, Copy, PartialEq, Eq, Structural, Debug)]
pub struct WindowState {
    pub mode: WindowMode,
    pub width: u32,
    pub height: u32,
    pub vsync: bool,
}

/// Value of one resolution axis: a non-empty run of decimal digits, with an
/// optional fraction part that is read but discarded. Anything else — or a
/// value beyond the pixel range — is no dimension.
pub open spec fn dim_value(s: Seq<char>) -> Option<u32> {
    match split_at_first(s, '.') {
        Option::Some((ip, fp)) => {
            if ip.len() > 0 && all_digits(ip) && all_digits(fp) && digits_val(ip) <= u32::MAX {
                Option::Some(digits_val(ip) as u32)
            } else {
                Option::None
            }
        },
        Option::None => {
            if s.len() > 0 && all_digits(s) && digits_val(s) <= u32::MAX {
                Option::Some(digits_val(s) as u32)
            } else {
                Option::None
            }
        },
    }
}

/// A resolution string: two dimensions joined by the first `x`.
pub open spec fn resolution_of(s: Seq<char>) -> Option<(u32, u32)> {
    match split_at_first(s, 'x') {
        Option::Some((w, h)) => match (dim_value(w), dim_value(h)) {
            (Option::Some(wv), Option::Some(hv)) => Option::Some((wv, hv)),
            _ => Option::None,
        },
        Option::None => Option::None,
    }
}

/// Digit runs never go negative.
proof fn lemma_digits_val_nonneg(s: Seq<char>)
    requires
        all_digits(s),
    ensures
        digits_val(s) >= 0,
    decreases s.len(),
{
    if s.len() > 0 {
        lemma_digits_val_nonneg(s.drop_last());
    }
}

/// Parse one axis of a resolution string between `from` and `to`.
fn parse_dimension_range(s: &str, from: usize, to: usize) -> (r: Option<u32>)
    requires
        from <= to <= s@.len(),
    ensures
        r == dim_value(s@.subrange(from as int, to as int)),
{
    let ghost part = s@.subrange(from as int, to as int);
    // Locate a fraction dot, if any, and check every other character is a
    // digit.
    let mut dot: usize = to;
    let mut all_ok: bool = true;
    for i in from..to
        invariant
            from <= to <= s@.len(),
            part == s@.subrange(from as int, to as int),
            from <= dot <= to,
            dot < to ==> dot < i,
            dot < to ==> s@[dot as int] == '.' && forall|j: int|
                from <= j < dot ==> s@[j] != '.',
            dot == to ==> forall|j: int| from <= j < i ==> s@[j] != '.',
            all_ok <==> (forall|j: int|
                from <= j < i && j != dot ==> is_digit(s@[j])),
    {
        let c = s.get_char(i);
        if c == '.' {
            if dot == to {
                dot = i;
            } else {
                all_ok = false;
            }
        } else if !is_digit_char(c) {
            all_ok = false;
        }
    }
    let ip_end = dot;
    proof {
        if dot < to {
            lemma_split_at_first_found(part, '.', dot - from);
            assert(part.take(dot - from) =~= s@.subrange(from as int, dot as int));
            assert(part.skip(dot - from + 1) =~= s@.subrange(dot + 1, to as int));
        } else {
            lemma_split_at_first_none(part, '.');
        }
    }
    let ghost ip = s@.subrange(from as int, ip_end as int);
    if !all_ok || ip_end == from {
        proof {
            if all_ok {
                assert(ip.len() == 0);
            } else {
                let j = choose|j: int| from <= j < to && j != dot && !is_digit(s@[j]);
                if dot < to {
                    if j < dot {
                        assert(ip[j - from] == s@[j]);
                        assert(!all_digits(ip));
                    } else {
                        let fp = s@.subrange(dot + 1, to as int);
                        assert(fp[j - dot - 1] == s@[j]);
                        assert(!all_digits(fp));
                    }
                } else {
                    assert(part[j - from] == s@[j]);
                    assert(!all_digits(part));
                }
            }
        }
        return None;
    }
    proof {
        assert forall|j: int| 0 <= j < ip.len() implies is_digit(ip[j]) by {
            assert(ip[j] == s@[from + j]);
        }
        if dot < to {
            let fp = s@.subrange(dot + 1, to as int);
            assert forall|j: int| 0 <= j < fp.len() implies is_digit(fp[j]) by {
                assert(fp[j] == s@[dot + 1 + j]);
            }
        }
        assert(ip.take(0) =~= Seq::<char>::empty());
    }
    // Accumulate the integer part, capping once the pixel range is passed.
    let mut acc: u64 = 0;
    let cap: u64 = 0x1_0000_0000;
    for i in from..ip_end
        invariant
            from <= ip_end <= to <= s@.len(),
            ip == s@.subrange(from as int, ip_end as int),
            all_digits(ip),
            cap == 0x1_0000_0000,
            acc <= cap,
            acc < cap ==> acc == digits_val(ip.take(i - from)),
            acc == cap ==> digits_val(ip.take(i - from)) > u32::MAX,
    {
        let c = s.get_char(i);
        proof {
            assert(ip[i - from] == s@[i as int]);
            assert(is_digit(ip[i - from]));
            assert(ip.take(i - from + 1).drop_last() =~= ip.take(i - from));
            assert(ip.take(i - from + 1).last() == ip[i - from]);
            assert(digits_val(ip.take(i - from + 1)) == digits_val(ip.take(i - from)) * 10
                + digit_val(ip[i - from]));
            lemma_digits_val_nonneg(ip.take(i - from));
        }
        let d: u64 = (c as u32 as u64) - ('0' as u32 as u64);
        proof {
            assert(digit_val(ip[i - from]) == d as int);
        }
        if acc == cap {
            proof {
                assert(digits_val(ip.take(i - from + 1)) > u32::MAX);
            }
        } else if acc * 10 + d > u32::MAX as u64 {
            acc = cap;
        } else {
            acc = acc * 10 + d;
        }
    }
    proof {
        assert(ip.take(ip_end - from) =~= ip);
    }
    if acc > u32::MAX as u64 {
        None
    } else {
        Some(acc as u32)
    }
}

/// Parse `"<width>x<height>"`. Each axis must be a decimal numeral in
/// pixel range; otherwise there is no resolution.
pub fn parse_resolution(s: &str) -> (r: Option<(u32, u32)>)
    ensures
        r == resolution_of(s@),
{
    let n = s.unicode_len();
    match find_char(s, 'x') {
        Option::None => {
            proof {
                lemma_split_at_first_none(s@, 'x');
            }
            None
        },
        Option::Some(i) => {
            proof {
                lemma_split_at_first_found(s@, 'x', i as int);
                assert(s@.take(i as int) =~= s@.subrange(0, i as int));
                assert(s@.skip(i as int + 1) =~= s@.subrange(i + 1, n as int));
            }
            let w = parse_dimension_range(s, 0, i);
            let h = parse_dimension_range(s, i + 1, n);
            match (w, h) {
                (Option::Some(wv), Option::Some(hv)) => Some((wv, hv)),
                _ => None,
            }
        },
    }
}

/// Does this configured value switch its flag on? Exactly the value `"1"`.
pub open spec fn flag_on(v: Option<Seq<char>>) -> bool {
    v == Option::Some("1"@)
}

/// The in-menu apply pass: push the stored display mode, resolution and
/// vsync flag into the window. Missing fullscreen means windowed, a
/// resolution that does not parse changes neither axis, and a missing
/// vsync key means vsync on. The caller persists the store afterwards,
/// whether or not a window was there to update.
pub fn apply_window_settings(cfg: &GameConfig, w: &mut WindowState)
    ensures
        final(w).mode == (if flag_on(lookup(cfg@, "cl_fullscreen"@)) {
            WindowMode::Fullscreen
        } else {
            WindowMode::Windowed
        }),
        (final(w).width, final(w).height) == (match lookup(cfg@, "cl_resolution"@) {
            Option::Some(v) => match resolution_of(v) {
                Option::Some(r) => r,
                Option::None => (old(w).width, old(w).height),
            },
            Option::None => (old(w).width, old(w).height),
        }),
        final(w).vsync == (match lookup(cfg@, "cl_vsync"@) {
            Option::Some(v) => v == "1"@,
            Option::None => true,
        }),
{
    apply_mode_and_resolution(cfg, w);
    let vsync = match cfg.get("cl_vsync") {
        Option::Some(v) => str_is_one(v.as_str()),
        Option::None => true,
    };
    w.vsync = vsync;
}

/// The startup pass: same display mode and resolution handling, but a
/// missing vsync key means vsync off.
pub fn apply_startup_settings(cfg: &GameConfig, w: &mut WindowState)
    ensures
        final(w).mode == (if flag_on(lookup(cfg@, "cl_fullscreen"@)) {
            WindowMode::Fullscreen
        } else {
            WindowMode::Windowed
        }),
        (final(w).width, final(w).height) == (match lookup(cfg@, "cl_resolution"@) {
            Option::Some(v) => match resolution_of(v) {
                Option::Some(r) => r,
                Option::None => (old(w).width, old(w).height),
            },
            Option::None => (old(w).width, old(w).height),
        }),
        final(w).vsync == flag_on(lookup(cfg@, "cl_vsync"@)),
{
    apply_mode_and_resolution(cfg, w);
    let vsync = match cfg.get("cl_vsync") {
        Option::Some(v) => str_is_one(v.as_str()),
        Option::None => false,
    };
    w.vsync = vsync;
}

/// The part both passes share: display mode and resolution.
fn apply_mode_and_resolution(cfg: &GameConfig, w: &mut WindowState)
    ensures
        final(w).mode == (if flag_on(lookup(cfg@, "cl_fullscreen"@)) {
            WindowMode::Fullscreen
        } else {
            WindowMode::Windowed
        }),
        (final(w).width, final(w).height) == (match lookup(cfg@, "cl_resolution"@) {
            Option::Some(v) => match resolution_of(v) {
                Option::Some(r) => r,
                Option::None => (old(w).width, old(w).height),
            },
            Option::None => (old(w).width, old(w).height),
        }),
        final(w).vsync == old(w).vsync,
{
    let fullscreen = match cfg.get("cl_fullscreen") {
        Option::Some(v) => str_is_one(v.as_str()),
        Option::None => false,
    };
    w.mode = if fullscreen {
        WindowMode::Fullscreen
    } else {
        WindowMode::Windowed
    };
    match cfg.get("cl_resolution") {
        Option::Some(v) => {
            match parse_resolution(v.as_str()) {
                Option::Some((x, y)) => {
                    w.width = x;
                    w.height = y;
                },
                Option::None => {},
            }
        },
        Option::None => {},
    }
}

/// Whether a stored value is exactly `"1"`.
fn str_is_one(v: &str) -> (r: bool)
    ensures
        r == (v@ == "1"@),
{
    crate::text::str_eq(v, "1")
}

} // verus!
