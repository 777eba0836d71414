//! Configuration data consumed at startup, and the small parsers the
//! command-line surface needs: window fit and background selection, hex
//! colors, window sizes, and motion identities written as
//! `[class:]name`.

use vstd::prelude::*;

verus! {

use crate::text::{spec_split, spec_views, split_str};

/// How the model is fitted into the window.
#[derive(Debug, Copy, Clone, PartialEq, Eq, Structural)]
pub enum FitConfig {
    Contain,
    Cover,
}

/// Which background the window draws.
#[derive(Debug, Copy, Clone, PartialEq, Eq, Structural)]
pub enum BgType {
    Color,
    Image,
}

/// The motions queued at launch, and the idle identity to fall back to.
#[derive(Debug)]
pub struct MotionConfig {
    pub open: Vec<(String, String)>,
    pub idle: Option<(String, String)>,
}

/// Where the model's assets live and which motions it starts with.
#[derive(Debug)]
pub struct ModelConfig {
    pub name: Option<String>,
    pub path: String,
    pub motions: MotionConfig,
}

impl Default for MotionConfig {
    /// No launch motions and no idle override.
    fn default() -> (r: MotionConfig)
        ensures
            r.open@.len() == 0,
            r.idle is None,
    {
        MotionConfig { open: Vec::new(), idle: None }
    }
}

impl Default for ModelConfig {
    /// No model selected, assets under `assets`, no motions configured.
    fn default() -> (r: ModelConfig)
        ensures
            r.name is None,
            r.path@ == "assets"@,
            r.motions.open@.len() == 0,
            r.motions.idle is None,
    {
        ModelConfig {
            name: None,
            path: String::from_str("assets"),
            motions: MotionConfig { open: Vec::new(), idle: None },
        }
    }
}

/// One named parameter group of the model manifest.
#[derive(Debug)]
#[allow(non_snake_case)]
pub struct JsonGroup {
    pub Target: String,
    pub Name: String,
    pub Ids: Vec<String>,
}

/// ASCII lowering of one character.
pub open spec fn spec_lower_char(c: char) -> char {
    if 'A' <= c <= 'Z' {
        (c as u8 + 32) as char
    } else {
        c
    }
}

/// ASCII lowering of a character sequence.
pub open spec fn spec_lower(s: Seq<char>) -> Seq<char> {
    s.map_values(|c: char| spec_lower_char(c))
}

/// Lower one ASCII character.
fn lower_char(c: char) -> (r: char)
    ensures
        r == spec_lower_char(c),
{
    if 'A' <= c && c <= 'Z' {
        (c as u8 + 32) as char
    } else {
        c
    }
}

/// Whether two strings agree up to ASCII case.
pub fn eq_ignore_ascii(a: &str, b: &str) -> (r: bool)
    ensures
        r == (spec_lower(a@) == spec_lower(b@)),
{
    let n = a.unicode_len();
    let m = b.unicode_len();
    if n != m {
        proof {
            assert(spec_lower(a@).len() != spec_lower(b@).len());
        }
        return false;
    }
    let mut i: usize = 0;
    while i < n
        invariant
            n == a@.len(),
            n == b@.len(),
            0 <= i <= n,
            forall|k: int| 0 <= k < i ==> spec_lower_char(a@[k]) == spec_lower_char(b@[k]),
        decreases n - i,
    {
        if lower_char(a.get_char(i)) != lower_char(b.get_char(i)) {
            proof {
                assert(spec_lower(a@)[i as int] != spec_lower(b@)[i as int]);
            }
            return false;
        }
        i += 1;
    }
    proof {
        assert(spec_lower(a@) =~= spec_lower(b@));
    }
    true
}

/// What a fit-mode word means, up to ASCII case.
pub open spec fn spec_parse_fit(s: Seq<char>) -> Option<FitConfig> {
    if spec_lower(s) == spec_lower("cover"@) {
        Some(FitConfig::Cover)
    } else if spec_lower(s) == spec_lower("contain"@) {
        Some(FitConfig::Contain)
    } else {
        None
    }
}

/// Parse a fit-mode word; an unknown word is rejected.
pub fn parse_fit(s: &str) -> (r: Option<FitConfig>)
    ensures
        r == spec_parse_fit(s@),
{
    if eq_ignore_ascii(s, "cover") {
        Some(FitConfig::Cover)
    } else if eq_ignore_ascii(s, "contain") {
        Some(FitConfig::Contain)
    } else {
        None
    }
}

/// What a background-variant word means, up to ASCII case.
pub open spec fn spec_parse_bg_variant(s: Seq<char>) -> Option<BgType> {
    if spec_lower(s) == spec_lower("color"@) {
        Some(BgType::Color)
    } else if spec_lower(s) == spec_lower("image"@) {
        Some(BgType::Image)
    } else {
        None
    }
}

/// Parse a background-variant word; an unknown word is rejected.
pub fn parse_bg_variant(s: &str) -> (r: Option<BgType>)
    ensures
        r == spec_parse_bg_variant(s@),
{
    if eq_ignore_ascii(s, "color") {
        Some(BgType::Color)
    } else if eq_ignore_ascii(s, "image") {
        Some(BgType::Image)
    } else {
        None
    }
}

/// Value of one hex digit, upper or lower case.
pub open spec fn spec_hex_digit(c: char) -> Option<int> {
    if '0' <= c <= '9' {
        Some(c as int - '0' as int)
    } else if 'a' <= c <= 'f' {
        Some(10 + c as int - 'a' as int)
    } else if 'A' <= c <= 'F' {
        Some(10 + c as int - 'A' as int)
    } else {
        None
    }
}

/// Value of the hex byte written at positions `i`, `i + 1`.
pub open spec fn spec_hex_byte(s: Seq<char>, i: int) -> Option<int> {
    match (spec_hex_digit(s[i]), spec_hex_digit(s[i + 1])) {
        (Some(h), Some(l)) => Some(16 * h + l),
        _ => None,
    }
}

/// What a hex color means: `RRGGBB` with full alpha, or `RRGGBBAA`;
/// any other length or a bad digit is rejected.
pub open spec fn spec_parse_hex_color(s: Seq<char>) -> Option<[u8; 4]> {
    if s.len() == 6 {
        match (spec_hex_byte(s, 0), spec_hex_byte(s, 2), spec_hex_byte(s, 4)) {
            (Some(r), Some(g), Some(b)) => Some([r as u8, g as u8, b as u8, 255]),
            _ => None,
        }
    } else if s.len() == 8 {
        match (spec_hex_byte(s, 0), spec_hex_byte(s, 2), spec_hex_byte(s, 4), spec_hex_byte(s, 6)) {
            (Some(r), Some(g), Some(b), Some(a)) => Some([r as u8, g as u8, b as u8, a as u8]),
            _ => None,
        }
    } else {
        None
    }
}

/// Value of one hex digit character.
fn hex_digit(c: char) -> (r: Option<u8>)
    ensures
        match r {
            Some(v) => spec_hex_digit(c) == Some(v as int) && v < 16,
            None => spec_hex_digit(c) is None,
        },
{
    if '0' <= c && c <= '9' {
        Some((c as u8) - ('0' as u8))
    } else if 'a' <= c && c <= 'f' {
        Some(10 + (c as u8) - ('a' as u8))
    } else if 'A' <= c && c <= 'F' {
        Some(10 + (c as u8) - ('A' as u8))
    } else {
        None
    }
}

/// Value of the hex byte at positions `i`, `i + 1`.
fn hex_byte(s: &str, i: usize) -> (r: Option<u8>)
    requires
        i <= 6,
        i + 1 < s@.len(),
    ensures
        match r {
            Some(v) => spec_hex_byte(s@, i as int) == Some(v as int),
            None => spec_hex_byte(s@, i as int) is None,
        },
{
    match (hex_digit(s.get_char(i)), hex_digit(s.get_char(i + 1))) {
        (Some(h), Some(l)) => Some(16 * h + l),
        _ => None,
    }
}

/// Parse a hex color, exactly as `spec_parse_hex_color` describes.
pub fn parse_hex_color(s: &str) -> (r: Option<[u8; 4]>)
    ensures
        r == spec_parse_hex_color(s@),
{
    let n = s.unicode_len();
    if n == 6 {
        match (hex_byte(s, 0), hex_byte(s, 2), hex_byte(s, 4)) {
            (Some(r), Some(g), Some(b)) => Some([r, g, b, 255]),
            _ => None,
        }
    } else if n == 8 {
        match (hex_byte(s, 0), hex_byte(s, 2), hex_byte(s, 4), hex_byte(s, 6)) {
            (Some(r), Some(g), Some(b), Some(a)) => Some([r, g, b, a]),
            _ => None,
        }
    } else {
        None
    }
}

/// Decimal value of the digits of `s` from `i` on, folded onto `acc`;
/// a non-digit or a value past `u32::MAX` is rejected.
pub open spec fn spec_u32_from(s: Seq<char>, i: int, acc: int) -> Option<int>
    decreases s.len() - i,
{
    if i < 0 || i >= s.len() {
        Some(acc)
    } else if '0' <= s[i] <= '9' {
        let v = acc * 10 + (s[i] as int - '0' as int);
        if v <= u32::MAX {
            spec_u32_from(s, i + 1, v)
        } else {
            None
        }
    } else {
        None
    }
}

/// What a decimal number means: the folded digit value of a non-empty
/// all-digit string that fits a `u32`.
pub open spec fn spec_parse_u32(s: Seq<char>) -> Option<int> {
    if s.len() == 0 {
        None
    } else {
        spec_u32_from(s, 0, 0)
    }
}

/// Parse a decimal number, exactly as `spec_parse_u32` describes.
pub fn parse_u32(s: &str) -> (r: Option<u32>)
    ensures
        match r {
            Some(v) => spec_parse_u32(s@) == Some(v as int),
            None => spec_parse_u32(s@) is None,
        },
{
    let n = s.unicode_len();
    if n == 0 {
        return None;
    }
    let mut acc: u32 = 0;
    let mut i: usize = 0;
    while i < n
        invariant
            n == s@.len(),
            0 <= i <= n,
            spec_u32_from(s@, 0, 0) == spec_u32_from(s@, i as int, acc as int),
        decreases n - i,
    {
        let c = s.get_char(i);
        if !('0' <= c && c <= '9') {
            return None;
        }
        let d = (c as u8) - ('0' as u8);
        if acc > (u32::MAX - d as u32) / 10 {
            proof {
                assert(acc * 10 + (c as int - '0' as int) > u32::MAX) by (nonlinear_arith)
                    requires
                        acc > (u32::MAX - (c as u8 - '0' as u8) as int) / 10,
                        u32::MAX == 0xffff_ffffu32,
                        '0' <= c <= '9',
                        d == c as u8 - '0' as u8,
                        acc >= 0,
                ;
            }
            return None;
        }
        proof {
            assert(acc * 10 + d <= u32::MAX) by (nonlinear_arith)
                requires
                    0 <= acc <= (u32::MAX - d as int) / 10,
                    0 <= d <= 9,
                    u32::MAX == 0xffff_ffffu32,
            ;
        }
        acc = acc * 10 + d as u32;
        i += 1;
    }
    Some(acc)
}

/// What a size argument means: `W` alone is a square window, `WxH` a
/// rectangle; anything after a second `x` is ignored.
pub open spec fn spec_parse_size(s: Seq<char>) -> Option<[u32; 2]> {
    let parts = spec_split(s, 'x');
    match spec_parse_u32(parts[0]) {
        Some(w) => if parts.len() >= 2 {
            match spec_parse_u32(parts[1]) {
                Some(h) => Some([w as u32, h as u32]),
                None => None,
            }
        } else {
            Some([w as u32, w as u32])
        },
        None => None,
    }
}

/// Parse a window size, exactly as `spec_parse_size` describes.
pub fn parse_size(s: &str) -> (r: Option<[u32; 2]>)
    ensures
        r == spec_parse_size(s@),
{
    let parts = split_str(s, 'x');
    match parse_u32(parts[0].as_str()) {
        Some(w) => {
            if parts.len() >= 2 {
                match parse_u32(parts[1].as_str()) {
                    Some(h) => Some([w, h]),
                    None => None,
                }
            } else {
                Some([w, w])
            }
        },
        None => None,
    }
}

/// What a motion identity written `[class:]name` means: the last colon
/// field is the name, the field before it the class, an absent class
/// the empty one.
pub open spec fn spec_parse_motion_id(s: Seq<char>) -> (Seq<char>, Seq<char>) {
    let parts = spec_split(s, ':');
    if parts.len() >= 2 {
        (parts[parts.len() - 2], parts[parts.len() - 1])
    } else {
        (Seq::empty(), parts[0])
    }
}

/// Parse a motion identity, exactly as `spec_parse_motion_id` describes.
pub fn parse_motion_id(s: &str) -> (r: (String, String))
    ensures
        (r.0@, r.1@) == spec_parse_motion_id(s@),
{
    let mut parts = split_str(s, ':');
    if parts.len() >= 2 {
        let name = parts.pop().unwrap();
        let class = parts.pop().unwrap();
        proof {
            assert(class@ == spec_views(parts@.push(class).push(name))[parts@.len() as int]);
            assert(name@ == spec_views(parts@.push(class).push(name))[parts@.len() as int + 1]);
        }
        (class, name)
    } else {
        let name = parts.pop().unwrap();
        proof {
            assert(name@ == spec_views(parts@.push(name))[0]);
        }
        (String::new(), name)
    }
}

/// Launch motions written `[class1:]motion1,...`, one identity per comma
/// field.
pub open spec fn spec_parse_motion_list(s: Seq<char>) -> Seq<(Seq<char>, Seq<char>)> {
    spec_split(s, ',').map_values(|p: Seq<char>| spec_parse_motion_id(p))
}

/// Parse a launch motion list, exactly as `spec_parse_motion_list`
/// describes.
pub fn parse_motion_list(s: &str) -> (r: Vec<(String, String)>)
    ensures
        r@.len() == spec_parse_motion_list(s@).len(),
        forall|i: int|
            0 <= i < r@.len() ==> ((#[trigger] r@[i]).0@, r@[i].1@) == spec_parse_motion_list(
                s@,
            )[i],
{
    let parts = split_str(s, ',');
    let mut out: Vec<(String, String)> = Vec::new();
    let n = parts.len();
    let mut i: usize = 0;
    while i < n
        invariant
            n == parts@.len(),
            0 <= i <= n,
            spec_views(parts@) == spec_split(s@, ','),
            out@.len() == i,
            forall|k: int|
                0 <= k < i ==> ((#[trigger] out@[k]).0@, out@[k].1@) == spec_parse_motion_id(
                    parts@[k]@,
                ),
        decreases n - i,
    {
        let id = parse_motion_id(parts[i].as_str());
        out.push(id);
        i += 1;
    }
    proof {
        assert forall|i: int| 0 <= i < out@.len() implies ((#[trigger] out@[i]).0@, out@[i].1@)
            == spec_parse_motion_list(s@)[i] by {
            assert(spec_views(parts@)[i] == parts@[i]@);
        }
    }
    out
}

} // verus!
