//! Parsing of key-chord specifications ("ctrl+shift+f5") into normalized
//! chords, and compilation of the configured bindings.
//!
//! Contracts speak about the UTF-8 bytes of the inputs. Tokens are
//! lowercased bytewise in the ASCII range (an ASCII lowercase, which
//! leaves every other character alone) and trimmed of ASCII whitespace; a
//! key token must be a named key, a function key, or any single
//! character.

use vstd::prelude::*;
use vstd::string::StringSliceAdditionalSpecFns;

use crate::text::{is_ascii_space, spec_decimal, string_from_ascii, string_from_utf8_checked};

verus! {

/// The modifier keys held in a chord.
#[derive(Clone, Copy, PartialEq, Eq, Structural, Debug, Hash)]
pub struct KeyModifiers {
    pub ctrl: bool,
    pub alt: bool,
    pub logo: bool,
    pub shift: bool,
}

impl Default for KeyModifiers {
    /// No modifier held.
    fn default() -> (r: KeyModifiers)
        ensures
            r == spec_no_modifiers(),
    {
        KeyModifiers { ctrl: false, alt: false, logo: false, shift: false }
    }
}

/// The modifier set with nothing held.
pub open spec fn spec_no_modifiers() -> KeyModifiers {
    KeyModifiers { ctrl: false, alt: false, logo: false, shift: false }
}

/// A normalized key chord: a key token plus the modifiers held with it.
#[derive(Clone, PartialEq, Eq, Debug, Hash)]
pub struct KeyChord {
    pub key: String,
    pub modifiers: KeyModifiers,
}

/// Whether two chords mean the same key and modifiers.
pub open spec fn spec_chord_eq(a: KeyChord, b: KeyChord) -> bool {
    a.key@ == b.key@ && a.modifiers == b.modifiers
}

impl KeyChord {
    /// Compares two chords by key token and modifiers.
    pub fn same(&self, other: &KeyChord) -> (r: bool)
        ensures
            r == spec_chord_eq(*self, *other),
    {
        self.key == other.key && self.modifiers.ctrl == other.modifiers.ctrl
            && self.modifiers.alt == other.modifiers.alt && self.modifiers.logo
            == other.modifiers.logo && self.modifiers.shift == other.modifiers.shift
    }
}

/// Everything a chord specification can be rejected for.
#[derive(Clone, Copy, PartialEq, Eq, Structural, Debug)]
pub enum ChordError {
    /// Two non-modifier tokens in one chord.
    MultipleKeys,
    /// Only modifiers, or nothing at all.
    MissingKey,
    /// A token that names no key.
    UnknownKeyToken,
    /// An `f`-prefixed token whose remainder is not a number up to 255.
    InvalidFunctionKey,
    /// A function key outside f1..=f24.
    FunctionKeyOutOfRange,
}

/// ASCII lowercase of one byte.
pub open spec fn spec_ascii_lower(b: u8) -> u8 {
    if 65 <= b <= 90 {
        (b + 32) as u8
    } else {
        b
    }
}

/// ASCII lowercase of a byte sequence.
pub open spec fn spec_lower(s: Seq<u8>) -> Seq<u8> {
    Seq::new(s.len(), |i: int| spec_ascii_lower(s[i]))
}

/// The position of the first `+` at or after `from`, or the length.
pub open spec fn spec_next_plus(s: Seq<u8>, from: int) -> int
    decreases s.len() - from,
{
    if from < 0 || from >= s.len() {
        s.len() as int
    } else if s[from] == 43 {
        from
    } else {
        spec_next_plus(s, from + 1)
    }
}

proof fn lemma_next_plus_bounds(s: Seq<u8>, from: int)
    requires
        0 <= from <= s.len(),
    ensures
        from <= spec_next_plus(s, from) <= s.len(),
    decreases s.len() - from,
{
    if from < s.len() && s[from] != 43 {
        lemma_next_plus_bounds(s, from + 1);
    }
}

/// The `+`-separated raw tokens of a byte sequence, starting at `from`.
pub open spec fn spec_raw_tokens(s: Seq<u8>, from: int) -> Seq<Seq<u8>>
    decreases s.len() - from,
    via spec_raw_tokens_dec
{
    if from < 0 || from > s.len() {
        Seq::empty()
    } else {
        let j = spec_next_plus(s, from);
        if j >= s.len() {
            seq![s.subrange(from, s.len() as int)]
        } else {
            seq![s.subrange(from, j)] + spec_raw_tokens(s, j + 1)
        }
    }
}

#[via_fn]
proof fn spec_raw_tokens_dec(s: Seq<u8>, from: int) {
    if 0 <= from <= s.len() {
        lemma_next_plus_bounds(s, from);
    }
}

/// A token with leading and trailing ASCII whitespace removed.
pub open spec fn spec_trim(t: Seq<u8>) -> Seq<u8>
    decreases t.len(),
{
    if t.len() > 0 && is_ascii_space(t.first()) {
        spec_trim(t.drop_first())
    } else if t.len() > 0 && is_ascii_space(t.last()) {
        spec_trim(t.drop_last())
    } else {
        t
    }
}

/// Whether every byte is an ASCII decimal digit (of a non-empty sequence).
pub open spec fn spec_all_digits(t: Seq<u8>) -> bool {
    t.len() > 0 && forall|i: int| 0 <= i < t.len() ==> 48 <= #[trigger] t[i] <= 57
}

/// The number the decimal digits spell.
pub open spec fn spec_digits_value(t: Seq<u8>) -> nat
    decreases t.len(),
{
    if t.len() == 0 {
        0
    } else {
        spec_digits_value(t.drop_last()) * 10 + (if t.last() >= 48 {
            (t.last() - 48) as nat
        } else {
            0
        })
    }
}

/// How many bytes the UTF-8 scalar starting with this leading byte
/// spans, or 0 for a byte that starts no scalar.
pub open spec fn utf8_scalar_width(b: u8) -> nat {
    if b < 0x80 {
        1
    } else if b < 0xC0 {
        0
    } else if b < 0xE0 {
        2
    } else if b < 0xF0 {
        3
    } else if b < 0xF8 {
        4
    } else {
        0
    }
}

/// The normalized key of one lowercased, trimmed token, or why it is no
/// key: the named keys, then `f`-numbered function keys normalized to
/// `f1`..`f24`, then any single character standing for itself.
#[verifier::opaque]
pub open spec fn spec_key_token(t: Seq<u8>) -> Result<Seq<u8>, ChordError> {
    if t == "esc".spec_bytes() || t == "escape".spec_bytes() {
        Ok("esc".spec_bytes())
    } else if t == "enter".spec_bytes() || t == "return".spec_bytes() {
        Ok("enter".spec_bytes())
    } else if t == "tab".spec_bytes() {
        Ok("tab".spec_bytes())
    } else if t == "backtab".spec_bytes() {
        Ok("backtab".spec_bytes())
    } else if t == "backspace".spec_bytes() {
        Ok("backspace".spec_bytes())
    } else if t == "space".spec_bytes() {
        Ok("space".spec_bytes())
    } else if t == "left".spec_bytes() {
        Ok("left".spec_bytes())
    } else if t == "right".spec_bytes() {
        Ok("right".spec_bytes())
    } else if t == "up".spec_bytes() {
        Ok("up".spec_bytes())
    } else if t == "down".spec_bytes() {
        Ok("down".spec_bytes())
    } else if t == "home".spec_bytes() {
        Ok("home".spec_bytes())
    } else if t == "end".spec_bytes() {
        Ok("end".spec_bytes())
    } else if t == "pageup".spec_bytes() {
        Ok("pageup".spec_bytes())
    } else if t == "pagedown".spec_bytes() {
        Ok("pagedown".spec_bytes())
    } else if t == "delete".spec_bytes() || t == "del".spec_bytes() {
        Ok("delete".spec_bytes())
    } else if t == "insert".spec_bytes() || t == "ins".spec_bytes() {
        Ok("insert".spec_bytes())
    } else if t == "comma".spec_bytes() {
        Ok(",".spec_bytes())
    } else if t == "period".spec_bytes() || t == "dot".spec_bytes() {
        Ok(".".spec_bytes())
    } else if t == "slash".spec_bytes() {
        Ok("/".spec_bytes())
    } else if t == "semicolon".spec_bytes() {
        Ok(";".spec_bytes())
    } else if t == "apostrophe".spec_bytes() || t == "quote".spec_bytes() {
        Ok("'".spec_bytes())
    } else if t == "minus".spec_bytes() {
        Ok("-".spec_bytes())
    } else if t == "equals".spec_bytes() {
        Ok("=".spec_bytes())
    } else if t == "left_bracket".spec_bytes() || t == "lbracket".spec_bytes() {
        Ok("[".spec_bytes())
    } else if t == "right_bracket".spec_bytes() || t == "rbracket".spec_bytes() {
        Ok("]".spec_bytes())
    } else if t == "backslash".spec_bytes() {
        Ok("\\".spec_bytes())
    } else if t == "grave".spec_bytes() || t == "backtick".spec_bytes() {
        Ok("`".spec_bytes())
    } else if t == "plus".spec_bytes() {
        Ok("+".spec_bytes())
    } else if t.len() >= 2 && t[0] == 102 {
        // an `f`-prefixed token is a function key or an error
        let digits = t.drop_first();
        if !spec_all_digits(digits) || spec_digits_value(digits) > 255 {
            Err(ChordError::InvalidFunctionKey)
        } else if !(1 <= spec_digits_value(digits) <= 24) {
            Err(ChordError::FunctionKeyOutOfRange)
        } else {
            Ok(seq![102u8] + spec_decimal(spec_digits_value(digits)))
        }
    } else if t.len() > 0 && t.len() == utf8_scalar_width(t[0]) && vstd::utf8::valid_utf8(t) {
        Ok(t)
    } else {
        Err(ChordError::UnknownKeyToken)
    }
}

/// Whether a trimmed, lowercased token names a modifier, and which.
#[verifier::opaque]
pub open spec fn spec_modifier_token(t: Seq<u8>) -> Option<KeyModifiers> {
    if t == "ctrl".spec_bytes() || t == "control".spec_bytes() {
        Some(KeyModifiers { ctrl: true, alt: false, logo: false, shift: false })
    } else if t == "alt".spec_bytes() || t == "option".spec_bytes() {
        Some(KeyModifiers { ctrl: false, alt: true, logo: false, shift: false })
    } else if t == "super".spec_bytes() || t == "meta".spec_bytes() || t == "cmd".spec_bytes() || t
        == "command".spec_bytes() || t == "win".spec_bytes() || t == "windows".spec_bytes() {
        Some(KeyModifiers { ctrl: false, alt: false, logo: true, shift: false })
    } else if t == "shift".spec_bytes() {
        Some(KeyModifiers { ctrl: false, alt: false, logo: false, shift: true })
    } else {
        None
    }
}

/// Folds the raw tokens of a chord from index `i` onward, with the
/// modifiers seen so far and the key already found, if any.
pub open spec fn spec_chord_fold(
    tokens: Seq<Seq<u8>>,
    i: int,
    mods: KeyModifiers,
    key: Option<Seq<u8>>,
) -> Result<(KeyModifiers, Seq<u8>), ChordError>
    decreases tokens.len() - i,
{
    if i < 0 || i >= tokens.len() {
        match key {
            Some(k) => Ok((mods, k)),
            None => Err(ChordError::MissingKey),
        }
    } else {
        let t = spec_trim(tokens[i]);
        if t.len() == 0 {
            spec_chord_fold(tokens, i + 1, mods, key)
        } else {
            match spec_modifier_token(t) {
                Some(m) => spec_chord_fold(
                    tokens,
                    i + 1,
                    KeyModifiers {
                        ctrl: mods.ctrl || m.ctrl,
                        alt: mods.alt || m.alt,
                        logo: mods.logo || m.logo,
                        shift: mods.shift || m.shift,
                    },
                    key,
                ),
                None => {
                    if key is Some {
                        Err(ChordError::MultipleKeys)
                    } else {
                        match spec_key_token(t) {
                            Ok(k) => spec_chord_fold(tokens, i + 1, mods, Some(k)),
                            Err(e) => Err(e),
                        }
                    }
                },
            }
        }
    }
}

/// What parsing a chord specification yields: the held modifiers and the
/// normalized key token (as its UTF-8 bytes), or the first error.
pub open spec fn spec_parse_chord(s: Seq<u8>) -> Result<(KeyModifiers, Seq<u8>), ChordError> {
    spec_chord_fold(spec_raw_tokens(spec_lower(s), 0), 0, spec_no_modifiers(), None)
}

/// Copies a byte vector.
fn copy_bytes(src: &Vec<u8>) -> (r: Vec<u8>)
    ensures
        r@ == src@,
{
    let mut r: Vec<u8> = Vec::new();
    let mut i: usize = 0;
    while i < src.len()
        invariant
            0 <= i <= src@.len(),
            r@ == src@.take(i as int),
        decreases src@.len() - i,
    {
        proof {
            assert(src@.take(i + 1) =~= src@.take(i as int).push(src@[i as int]));
        }
        r.push(src[i]);
        i += 1;
    }
    proof {
        assert(src@.take(src@.len() as int) =~= src@);
    }
    r
}

/// Tells whether a byte is ASCII whitespace.
fn is_space_byte(b: u8) -> (r: bool)
    ensures
        r == is_ascii_space(b),
{
    b == 32 || b == 9 || b == 10 || b == 11 || b == 12 || b == 13
}

/// Compares a token against a literal's bytes.
fn token_is(t: &Vec<u8>, lit: &str) -> (r: bool)
    ensures
        r == (t@ == lit.spec_bytes()),
{
    let lit_bytes = lit.as_bytes();
    if t.len() != lit_bytes.len() {
        assert(t@ =~= lit.spec_bytes() ==> t@.len() == lit.spec_bytes().len());
        return false;
    }
    let mut i: usize = 0;
    while i < t.len()
        invariant
            0 <= i <= t@.len(),
            t@.len() == lit_bytes@.len(),
            lit_bytes@ == lit.spec_bytes(),
            forall|j: int| 0 <= j < i ==> t@[j] == lit_bytes@[j],
        decreases t@.len() - i,
    {
        if t[i] != lit_bytes[i] {
            assert(t@ != lit.spec_bytes());
            return false;
        }
        i += 1;
    }
    proof {
        assert(t@ =~= lit.spec_bytes());
    }
    true
}

proof fn lemma_digits_prefix_le(t: Seq<u8>, i: int)
    requires
        0 <= i <= t.len(),
    ensures
        spec_digits_value(t.take(i)) <= spec_digits_value(t),
    decreases t.len() - i,
{
    if i < t.len() {
        lemma_digits_prefix_le(t, i + 1);
        assert(t.take(i + 1).drop_last() =~= t.take(i));
        assert(spec_digits_value(t.take(i)) <= spec_digits_value(t.take(i + 1)));
    } else {
        assert(t.take(i) =~= t);
    }
}

/// Parses the digits after the `f` of a function-key token: the spelled
/// number when every byte is a digit and the value fits a byte.
fn parse_fkey_digits(digits: &Vec<u8>) -> (r: Option<u8>)
    requires
        digits@.len() > 0,
    ensures
        r matches Some(v) ==> spec_all_digits(digits@) && spec_digits_value(digits@) == v,
        r is None ==> !spec_all_digits(digits@) || spec_digits_value(digits@) > 255,
{
    let mut acc: u32 = 0;
    let mut i: usize = 0;
    while i < digits.len()
        invariant
            0 <= i <= digits@.len(),
            forall|j: int| 0 <= j < i ==> 48 <= #[trigger] digits@[j] <= 57,
            acc == spec_digits_value(digits@.take(i as int)),
            acc <= 255,
        decreases digits@.len() - i,
    {
        let b = digits[i];
        if b < 48 || b > 57 {
            return None;
        }
        proof {
            assert(digits@.take(i + 1).drop_last() =~= digits@.take(i as int));
        }
        acc = acc * 10 + ((b - 48) as u32);
        if acc > 255 {
            proof {
                lemma_digits_prefix_le(digits@, i + 1);
            }
            return None;
        }
        i += 1;
    }
    proof {
        assert(digits@.take(digits@.len() as int) =~= digits@);
    }
    Some(acc as u8)
}

/// Normalizes one lowercased, trimmed key token, or reports why it is no
/// key.
fn parse_key_token(t: &Vec<u8>) -> (r: Result<String, ChordError>)
    ensures
        r matches Ok(k) ==> (spec_key_token(t@) matches Ok(kb) && vstd::utf8::encode_utf8(k@) == kb),
        r matches Err(e) ==> spec_key_token(t@) == Err::<Seq<u8>, ChordError>(e),
{
    proof {
        reveal(spec_key_token);
    }
    if token_is(t, "esc") || token_is(t, "escape") {
        return Ok("esc".to_owned());
    }
    if token_is(t, "enter") || token_is(t, "return") {
        return Ok("enter".to_owned());
    }
    if token_is(t, "tab") {
        return Ok("tab".to_owned());
    }
    if token_is(t, "backtab") {
        return Ok("backtab".to_owned());
    }
    if token_is(t, "backspace") {
        return Ok("backspace".to_owned());
    }
    if token_is(t, "space") {
        return Ok("space".to_owned());
    }
    if token_is(t, "left") {
        return Ok("left".to_owned());
    }
    if token_is(t, "right") {
        return Ok("right".to_owned());
    }
    if token_is(t, "up") {
        return Ok("up".to_owned());
    }
    if token_is(t, "down") {
        return Ok("down".to_owned());
    }
    if token_is(t, "home") {
        return Ok("home".to_owned());
    }
    if token_is(t, "end") {
        return Ok("end".to_owned());
    }
    if token_is(t, "pageup") {
        return Ok("pageup".to_owned());
    }
    if token_is(t, "pagedown") {
        return Ok("pagedown".to_owned());
    }
    if token_is(t, "delete") || token_is(t, "del") {
        return Ok("delete".to_owned());
    }
    if token_is(t, "insert") || token_is(t, "ins") {
        return Ok("insert".to_owned());
    }
    if token_is(t, "comma") {
        return Ok(",".to_owned());
    }
    if token_is(t, "period") || token_is(t, "dot") {
        return Ok(".".to_owned());
    }
    if token_is(t, "slash") {
        return Ok("/".to_owned());
    }
    if token_is(t, "semicolon") {
        return Ok(";".to_owned());
    }
    if token_is(t, "apostrophe") || token_is(t, "quote") {
        return Ok("'".to_owned());
    }
    if token_is(t, "minus") {
        return Ok("-".to_owned());
    }
    if token_is(t, "equals") {
        return Ok("=".to_owned());
    }
    if token_is(t, "left_bracket") || token_is(t, "lbracket") {
        return Ok("[".to_owned());
    }
    if token_is(t, "right_bracket") || token_is(t, "rbracket") {
        return Ok("]".to_owned());
    }
    if token_is(t, "backslash") {
        return Ok("\\".to_owned());
    }
    if token_is(t, "grave") || token_is(t, "backtick") {
        return Ok("`".to_owned());
    }
    if token_is(t, "plus") {
        return Ok("+".to_owned());
    }
    if t.len() >= 2 && t[0] == 102 {
        let mut digits: Vec<u8> = Vec::new();
        let mut i: usize = 1;
        while i < t.len()
            invariant
                1 <= i <= t@.len(),
                digits@ == t@.drop_first().take(i - 1),
            decreases t@.len() - i,
        {
            proof {
                assert(t@.drop_first().take(i as int) =~= t@.drop_first().take(i - 1).push(
                    t@[i as int],
                ));
            }
            digits.push(t[i]);
            i += 1;
        }
        proof {
            assert(digits@ =~= t@.drop_first());
        }
        let n = match parse_fkey_digits(&digits) {
            Some(n) => n,
            None => {
                return Err(ChordError::InvalidFunctionKey);
            },
        };
        if n < 1 || n > 24 {
            return Err(ChordError::FunctionKeyOutOfRange);
        }
        let mut out: Vec<u8> = Vec::new();
        out.push(102);
        let mut dec = crate::text::decimal_u8(n);
        out.append(&mut dec);
        proof {
            assert(out@ =~= seq![102u8] + spec_decimal(n as nat));
        }
        let k = string_from_ascii(out);
        proof {
            crate::text::lemma_ascii_view_bytes(k@, seq![102u8] + spec_decimal(n as nat));
        }
        return Ok(k);
    }
    if t.len() > 0 {
        let b0 = t[0];
        let width: usize = if b0 < 0x80 {
            1
        } else if b0 < 0xC0 {
            0
        } else if b0 < 0xE0 {
            2
        } else if b0 < 0xF0 {
            3
        } else if b0 < 0xF8 {
            4
        } else {
            0
        };
        if width == t.len() {
            // the token is one character exactly when its bytes are valid
            // UTF-8 of that single scalar
            match string_from_utf8_checked(copy_bytes(t)) {
                Some(k) => {
                    return Ok(k);
                },
                None => {
                    return Err(ChordError::UnknownKeyToken);
                },
            }
        }
    }
    Err(ChordError::UnknownKeyToken)
}

/// Parses a chord specification such as `ctrl+shift+f5`: tokens are split
/// on `+`, trimmed, lowercased in the ASCII range; modifier tokens
/// accumulate, exactly one remaining token must name a key.
#[verifier::rlimit(100)]
#[verifier::loop_isolation(false)]
pub fn parse_chord(chord_spec: &str) -> (r: Result<KeyChord, ChordError>)
    ensures
        r matches Ok(c) ==> (spec_parse_chord(chord_spec.spec_bytes()) matches Ok(p) && p.0
            == c.modifiers && p.1 == vstd::utf8::encode_utf8(c.key@)),
        r matches Err(e) ==> spec_parse_chord(chord_spec.spec_bytes()) == Err::<
            (KeyModifiers, Seq<u8>),
            ChordError,
        >(e),
{
    let bytes = chord_spec.as_bytes();
    let ghost lowered = spec_lower(chord_spec.spec_bytes());
    // split the lowered bytes on `+`
    let mut tokens: Vec<Vec<u8>> = Vec::new();
    let ghost mut gtokens: Seq<Seq<u8>> = Seq::empty();
    let mut p: usize = 0;
    let mut done: bool = false;
    while !done
        invariant
            !done ==> 0 <= p <= bytes@.len(),
            !done ==> spec_raw_tokens(lowered, 0) == gtokens + spec_raw_tokens(lowered, p as int),
            done ==> spec_raw_tokens(lowered, 0) == gtokens,
            gtokens.len() == tokens@.len(),
            forall|k: int| 0 <= k < gtokens.len() ==> gtokens[k] == (#[trigger] tokens@[k])@,
        decreases bytes@.len() - p + (if done {
            0int
        } else {
            1int
        }),
    {
        let mut q: usize = p;
        let mut token: Vec<u8> = Vec::new();
        while q < bytes.len() && bytes[q] != 43
            invariant
                p <= q <= bytes@.len(),
                bytes@ == chord_spec.spec_bytes(),
                lowered == spec_lower(chord_spec.spec_bytes()),
                lowered.len() == bytes@.len(),
                spec_next_plus(lowered, p as int) == spec_next_plus(lowered, q as int),
                token@ == lowered.subrange(p as int, q as int),
                forall|k: int| p <= k < q ==> lowered[k] != 43,
            decreases bytes@.len() - q,
        {
            let b = bytes[q];
            let lb: u8 = if 65 <= b && b <= 90 {
                b + 32
            } else {
                b
            };
            proof {
                assert(lowered[q as int] == spec_ascii_lower(bytes@[q as int]));
                assert(lowered.subrange(p as int, q + 1) =~= lowered.subrange(p as int, q as int)
                    .push(lowered[q as int]));
            }
            token.push(lb);
            q += 1;
        }
        proof {
            assert(spec_next_plus(lowered, q as int) == q as int);
            assert(spec_next_plus(lowered, p as int) == q as int);
        }
        proof {
            gtokens = gtokens.push(token@);
        }
        tokens.push(token);
        if q == bytes.len() {
            proof {
                assert(spec_raw_tokens(lowered, p as int) =~= seq![
                    lowered.subrange(p as int, lowered.len() as int),
                ]);
                assert(spec_raw_tokens(lowered, 0) =~= gtokens);
            }
            done = true;
        } else {
            proof {
                assert(lowered[q as int] == 43);
                assert(spec_raw_tokens(lowered, p as int) =~= seq![
                    lowered.subrange(p as int, q as int),
                ] + spec_raw_tokens(lowered, q + 1));
            }
            p = q + 1;
        }
    }
    // fold the tokens into modifiers and a key
    let ghost tokens_spec = gtokens;
    let mut mods = KeyModifiers { ctrl: false, alt: false, logo: false, shift: false };
    let mut key: Option<String> = None;
    let mut i: usize = 0;
    while i < tokens.len()
        invariant
            0 <= i <= tokens@.len(),
            tokens_spec.len() == tokens@.len(),
            forall|k: int| 0 <= k < tokens_spec.len() ==> tokens_spec[k] == (
            #[trigger] tokens@[k])@,
            spec_chord_fold(tokens_spec, 0, spec_no_modifiers(), None) == spec_chord_fold(
                tokens_spec,
                i as int,
                mods,
                match key {
                    Some(k) => Some(vstd::utf8::encode_utf8(k@)),
                    None => None,
                },
            ),
        decreases tokens@.len() - i,
    {
        let mut t = copy_bytes(&tokens[i]);
        proof {
            assert(t@ == tokens_spec[i as int]);
        }
        // trim ASCII whitespace from both ends
        while t.len() > 0 && is_space_byte(t[0])
            invariant
                spec_trim(t@) == spec_trim(tokens_spec[i as int]),
            decreases t@.len(),
        {
            proof {
                assert(t@.remove(0) =~= t@.drop_first());
            }
            t.remove(0);
        }
        while t.len() > 0 && is_space_byte(t[t.len() - 1])
            invariant
                spec_trim(t@) == spec_trim(tokens_spec[i as int]),
                t@.len() > 0 ==> !is_ascii_space(t@.first()),
            decreases t@.len(),
        {
            t.pop();
        }
        proof {
            reveal(spec_modifier_token);
            assert(spec_trim(t@) == t@);
        }
        if t.len() == 0 {
            i += 1;
            continue ;
        }
        if token_is(&t, "ctrl") || token_is(&t, "control") {
            mods.ctrl = true;
        } else if token_is(&t, "alt") || token_is(&t, "option") {
            mods.alt = true;
        } else if token_is(&t, "super") || token_is(&t, "meta") || token_is(&t, "cmd") || token_is(
            &t,
            "command",
        ) || token_is(&t, "win") || token_is(&t, "windows") {
            mods.logo = true;
        } else if token_is(&t, "shift") {
            mods.shift = true;
        } else {
            if key.is_some() {
                return Err(ChordError::MultipleKeys);
            }
            match parse_key_token(&t) {
                Ok(k) => {
                    key = Some(k);
                },
                Err(e) => {
                    return Err(e);
                },
            }
        }
        i += 1;
    }
    match key {
        Some(k) => Ok(KeyChord { key: k, modifiers: mods }),
        None => Err(ChordError::MissingKey),
    }
}


/// The UTF-8 bytes of a string.
pub open spec fn spec_string_bytes(s: String) -> Seq<u8> {
    vstd::utf8::encode_utf8(s@)
}

/// What parsing a chord specification held in a `String` yields.
pub open spec fn spec_parsed_chord(s: String) -> Result<(KeyModifiers, Seq<u8>), ChordError> {
    spec_parse_chord(spec_string_bytes(s))
}

/// Whether a chord value is what parsing the entry yields.
pub open spec fn chord_matches(entry: String, c: KeyChord) -> bool {
    &&& spec_parsed_chord(entry) matches Ok(p)
    &&& spec_parsed_chord(entry) == Ok::<(KeyModifiers, Seq<u8>), ChordError>(
        (c.modifiers, vstd::utf8::encode_utf8(c.key@)),
    )
}

/// Whether a compiled binding is what compiling the entry yields.
pub open spec fn binding_matches(entry: (String, u8), b: (KeyChord, u8)) -> bool {
    &&& entry.1 <= 127
    &&& b.1 == entry.1
    &&& chord_matches(entry.0, b.0)
}

/// The first entry of a chord list that does not parse, at or after `i`,
/// with its error.
pub open spec fn spec_chord_list_error_from(entries: Seq<String>, i: int) -> Option<ChordError>
    decreases entries.len() - i,
{
    if i < 0 || i >= entries.len() {
        None
    } else {
        match spec_parsed_chord(entries[i]) {
            Err(e) => Some(e),
            Ok(_) => spec_chord_list_error_from(entries, i + 1),
        }
    }
}

/// Compiles a list of chord specifications for one control: every entry
/// must parse; the parsed chords come back in entry order. The label only
/// names the control for the caller's reporting and plays no part in the
/// result.
#[verifier::rlimit(60)]
#[verifier::loop_isolation(false)]
pub fn compile_chord_set(entries: &Vec<String>, label: &str) -> (r: Result<Vec<KeyChord>, ChordError>)
    ensures
        (r is Ok) <==> spec_chord_list_error_from(entries@, 0) is None,
        r matches Err(e) ==> spec_chord_list_error_from(entries@, 0) == Some(e),
        r matches Ok(v) ==> {
            &&& v@.len() == entries@.len()
            &&& forall|i: int| 0 <= i < v@.len() ==> chord_matches(entries@[i], #[trigger] v@[i])
        },
{
    let _ = label;
    let mut v: Vec<KeyChord> = Vec::new();
    let mut i: usize = 0;
    while i < entries.len()
        invariant
            0 <= i <= entries@.len(),
            v@.len() == i,
            spec_chord_list_error_from(entries@, 0) == spec_chord_list_error_from(
                entries@,
                i as int,
            ),
            forall|j: int| 0 <= j < i ==> chord_matches(entries@[j], #[trigger] v@[j]),
        decreases entries@.len() - i,
    {
        match parse_chord(entries[i].as_str()) {
            Ok(chord) => {
                proof {
                    assert(chord_matches(entries@[i as int], chord));
                }
                v.push(chord);
            },
            Err(e) => {
                return Err(e);
            },
        }
        i += 1;
    }
    Ok(v)
}

/// Everything a set of note keybindings can be rejected for, with the
/// index of the offending entry.
#[derive(Clone, Copy, PartialEq, Eq, Structural, Debug)]
pub enum BindingError {
    /// The entry maps to a MIDI note above 127.
    NoteOutOfRange(usize),
    /// The entry's chord specification does not parse.
    InvalidChord(usize, ChordError),
    /// The entry's chord equals an earlier entry's chord.
    DuplicateBinding(usize),
}

/// The first entry of a binding list that is rejected, at or after `i`:
/// a note above 127, a chord that does not parse, or a chord already bound
/// by an earlier entry.
pub open spec fn spec_bindings_error_from(entries: Seq<(String, u8)>, i: int) -> Option<
    BindingError,
>
    decreases entries.len() - i,
{
    if i < 0 || i >= entries.len() {
        None
    } else if entries[i].1 > 127 {
        Some(BindingError::NoteOutOfRange(i as usize))
    } else {
        match spec_parsed_chord(entries[i].0) {
            Err(e) => Some(BindingError::InvalidChord(i as usize, e)),
            Ok(p) => {
                if exists|j: int| 0 <= j < i && spec_parsed_chord((#[trigger] entries[j]).0) == Ok::<
                    (KeyModifiers, Seq<u8>),
                    ChordError,
                >(p) {
                    Some(BindingError::DuplicateBinding(i as usize))
                } else {
                    spec_bindings_error_from(entries, i + 1)
                }
            },
        }
    }
}

/// Compiles the note keybindings: every entry must map a parsable,
/// previously unbound chord to a MIDI note in 0..=127. The compiled pairs
/// come back in entry order, chords pairwise distinct.
#[verifier::rlimit(60)]
#[verifier::loop_isolation(false)]
pub fn compile_note_bindings(raw_bindings: &Vec<(String, u8)>) -> (r: Result<
    Vec<(KeyChord, u8)>,
    BindingError,
>)
    ensures
        (r is Ok) <==> spec_bindings_error_from(raw_bindings@, 0) is None,
        r matches Err(e) ==> spec_bindings_error_from(raw_bindings@, 0) == Some(e),
        r matches Ok(v) ==> {
            &&& v@.len() == raw_bindings@.len()
            &&& forall|i: int|
                0 <= i < v@.len() ==> binding_matches(raw_bindings@[i], #[trigger] v@[i])
            &&& forall|i: int, j: int|
                0 <= i < j < v@.len() ==> !spec_chord_eq((#[trigger] v@[i]).0, (#[trigger] v@[j]).0)
        },
{
    let mut v: Vec<(KeyChord, u8)> = Vec::new();
    let mut i: usize = 0;
    while i < raw_bindings.len()
        invariant
            0 <= i <= raw_bindings@.len(),
            v@.len() == i,
            spec_bindings_error_from(raw_bindings@, 0) == spec_bindings_error_from(
                raw_bindings@,
                i as int,
            ),
            forall|j: int| 0 <= j < i ==> binding_matches(raw_bindings@[j], #[trigger] v@[j]),
            forall|a: int, b: int|
                0 <= a < b < i ==> !spec_chord_eq((#[trigger] v@[a]).0, (#[trigger] v@[b]).0),
        decreases raw_bindings@.len() - i,
    {
        let entry = &raw_bindings[i];
        if entry.1 > 127 {
            return Err(BindingError::NoteOutOfRange(i));
        }
        let chord = match parse_chord(entry.0.as_str()) {
            Ok(chord) => chord,
            Err(e) => {
                return Err(BindingError::InvalidChord(i, e));
            },
        };
        proof {
            assert(chord_matches(raw_bindings@[i as int].0, chord));
        }
        let mut j: usize = 0;
        let mut duplicate = false;
        while j < v.len()
            invariant
                0 <= j <= v@.len(),
                v@.len() == i,
                forall|a: int| 0 <= a < i ==> binding_matches(raw_bindings@[a], #[trigger] v@[a]),
                duplicate ==> exists|a: int|
                    0 <= a < i && spec_chord_eq((#[trigger] v@[a]).0, chord),
                !duplicate ==> forall|a: int|
                    0 <= a < j ==> !spec_chord_eq((#[trigger] v@[a]).0, chord),
            decreases v@.len() - j,
        {
            if v[j].0.same(&chord) {
                duplicate = true;
                proof {
                    assert(spec_chord_eq(v@[j as int].0, chord));
                }
                break ;
            }
            j += 1;
        }
        if duplicate {
            proof {
                let a = choose|a: int| 0 <= a < i && spec_chord_eq(#[trigger] v@[a].0, chord);
                assert(binding_matches(raw_bindings@[a], v@[a]));
                assert(chord_matches(raw_bindings@[i as int].0, chord));
            }
            return Err(BindingError::DuplicateBinding(i));
        }
        proof {
            assert forall|a: int, b: int|
                0 <= a < b < i + 1 implies !spec_chord_eq(
                (#[trigger] v@.push((chord, entry.1))[a]).0,
                (#[trigger] v@.push((chord, entry.1))[b]).0,
            ) by {
                if b < i {
                    assert(v@.push((chord, entry.1))[a] == v@[a]);
                    assert(v@.push((chord, entry.1))[b] == v@[b]);
                } else {
                    assert(v@.push((chord, entry.1))[b].0 == chord);
                    if a < i {
                        assert(v@.push((chord, entry.1))[a] == v@[a]);
                    }
                }
            }
            // no earlier parsed chord equals this one, so the spec does not
            // report a duplicate at this index
            assert forall|a: int|
                0 <= a < i implies spec_parsed_chord((#[trigger] raw_bindings@[a]).0) != Ok::<
                (KeyModifiers, Seq<u8>),
                ChordError,
            >((chord.modifiers, vstd::utf8::encode_utf8(chord.key@))) by {
                if spec_parsed_chord(raw_bindings@[a].0) == Ok::<(KeyModifiers, Seq<u8>), ChordError>(
                    (chord.modifiers, vstd::utf8::encode_utf8(chord.key@)),
                ) {
                    assert(vstd::utf8::encode_utf8(v@[a].0.key@) == vstd::utf8::encode_utf8(chord.key@));
                    crate::text::lemma_encode_injective(v@[a].0.key@, chord.key@);
                    assert(spec_chord_eq(v@[a].0, chord));
                }
            }
        }
        v.push((chord, entry.1));
        i += 1;
    }
    Ok(v)
}

/// Tells whether a chord is a member of a compiled chord list.
pub fn chord_set_contains(set: &Vec<KeyChord>, chord: &KeyChord) -> (r: bool)
    ensures
        r == exists|i: int| 0 <= i < set@.len() && spec_chord_eq(#[trigger] set@[i], *chord),
{
    let mut i: usize = 0;
    while i < set.len()
        invariant
            0 <= i <= set@.len(),
            forall|j: int| 0 <= j < i ==> !spec_chord_eq(#[trigger] set@[j], *chord),
        decreases set@.len() - i,
    {
        if set[i].same(chord) {
            return true;
        }
        i += 1;
    }
    false
}

} // verus!
