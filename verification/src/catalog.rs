//! What the catalog of inputs computes for a file that it found: the digest
//! of its contents, the DPI scale that its name carries, and the settings
//! of the nearest rule that encloses it.

use vstd::prelude::*;
use vstd::arithmetic::div_mod::{lemma_mod_multiples_vanish, lemma_mul_mod_noop_left, lemma_small_mod};
use crate::data::{AssetName, InputConfig, SyncInput};
use crate::path::{components, path_components, path_strip_prefix, segments_of, strip_prefix};
use crate::text::{chars_of, decimal, decimal_string, decimal_value, is_digit, is_digits,
    lemma_decimal_injective, push_char};

verus! {

/// The state that the digest starts from.
pub const HASH_BASIS: u64 = 0xcbf2_9ce4_8422_2325;

/// The factor of the digest.
pub const HASH_PRIME: u64 = 0x0000_0100_0000_01b3;

/// The state of the digest after one more byte: the state and the byte
/// combined bit by bit, times the factor, in 64 bits.
pub open spec fn hash_step(state: u64, byte: u8) -> u64 {
    (((state ^ (byte as u64)) * HASH_PRIME) % 0x1_0000_0000_0000_0000) as u64
}

/// The state of the digest after the bytes of `contents`.
pub open spec fn hash_state(contents: Seq<u8>) -> u64
    decreases contents.len(),
{
    if contents.len() == 0 {
        HASH_BASIS
    } else {
        hash_step(hash_state(contents.drop_last()), contents.last())
    }
}

/// The digest of `contents`: the state after its bytes, in decimal.
pub open spec fn spec_content_hash(contents: Seq<u8>) -> Seq<char> {
    decimal(hash_state(contents) as nat)
}

/// The digest of `contents`.
pub fn content_hash(contents: &[u8]) -> (hash: String)
    ensures
        hash@ == spec_content_hash(contents@),
{
    let mut state: u64 = HASH_BASIS;
    let mut i: usize = 0;
    assert(contents@.take(0) =~= Seq::<u8>::empty());
    while i < contents.len()
        invariant
            i <= contents.len(),
            state == hash_state(contents@.take(i as int)),
        decreases contents.len() - i,
    {
        assert(contents@.take(i + 1).drop_last() =~= contents@.take(i as int));
        assert(contents@.take(i + 1).last() == contents@[i as int]);
        state = (state ^ (contents[i] as u64)).wrapping_mul(HASH_PRIME);
        i += 1;
    }
    assert(contents@.take(contents@.len() as int) =~= contents@);
    decimal_string(state)
}

/// Multiplying by the factor loses nothing: two states with one product
/// in 64 bits are the same.
proof fn lemma_factor_is_injective(x: u64, y: u64)
    requires
        (x * HASH_PRIME) % 0x1_0000_0000_0000_0000 == (y * HASH_PRIME) % 0x1_0000_0000_0000_0000,
    ensures
        x == y,
{
    lemma_factor_undone(x);
    lemma_factor_undone(y);
}

/// The factor has an inverse in 64 bits, which gives a state back.
proof fn lemma_factor_undone(x: u64)
    ensures
        (((x * HASH_PRIME) % 0x1_0000_0000_0000_0000) * 14886173955864302971)
            % 0x1_0000_0000_0000_0000 == x,
{
    let m: int = 0x1_0000_0000_0000_0000;
    let p: int = HASH_PRIME as int;
    let q: int = 14886173955864302971;
    let k: int = 887285111055;
    assert(p * q == m * k + 1) by (nonlinear_arith)
        requires
            p == 0x0000_0100_0000_01b3,
            q == 14886173955864302971,
            m == 0x1_0000_0000_0000_0000,
            k == 887285111055,
    ;
    lemma_mul_mod_noop_left(x * p, q, m);
    assert((x * p) * q == m * (k * x) + x) by (nonlinear_arith)
        requires
            p * q == m * k + 1,
    ;
    lemma_mod_multiples_vanish(k * x, x as int, m);
    lemma_small_mod(x as nat, m as nat);
}

/// Another byte in the same state, or the same byte in another state,
/// gives another state.
proof fn lemma_step_is_injective(state1: u64, byte1: u8, state2: u64, byte2: u8)
    requires
        state1 != state2 || byte1 != byte2,
        state1 == state2 || byte1 == byte2,
    ensures
        hash_step(state1, byte1) != hash_step(state2, byte2),
{
    let x = state1 ^ (byte1 as u64);
    let y = state2 ^ (byte2 as u64);
    assert(x != y) by (bit_vector)
        requires
            x == state1 ^ (byte1 as u64),
            y == state2 ^ (byte2 as u64),
            state1 != state2 || byte1 != byte2,
            state1 == state2 || byte1 == byte2,
    ;
    if hash_step(state1, byte1) == hash_step(state2, byte2) {
        lemma_factor_is_injective(x, y);
    }
}

/// Altering one byte of the contents changes the digest.
pub proof fn lemma_altered_byte_changes_hash(contents: Seq<u8>, at: int, byte: u8)
    requires
        0 <= at < contents.len(),
        contents[at] != byte,
    ensures
        spec_content_hash(contents.update(at, byte)) != spec_content_hash(contents),
{
    lemma_altered_state(contents, at, byte);
    if spec_content_hash(contents.update(at, byte)) == spec_content_hash(contents) {
        lemma_decimal_injective(
            hash_state(contents.update(at, byte)) as nat,
            hash_state(contents) as nat,
        );
    }
}

proof fn lemma_altered_state(contents: Seq<u8>, at: int, byte: u8)
    requires
        0 <= at < contents.len(),
        contents[at] != byte,
    ensures
        hash_state(contents.update(at, byte)) != hash_state(contents),
    decreases contents.len(),
{
    let altered = contents.update(at, byte);
    let front = contents.drop_last();
    if at == contents.len() - 1 {
        assert(altered.drop_last() =~= front);
        lemma_step_is_injective(hash_state(front), byte, hash_state(front), contents.last());
    } else {
        assert(altered.drop_last() =~= front.update(at, byte));
        assert(altered.last() == contents.last());
        lemma_altered_state(front, at, byte);
        lemma_step_is_injective(
            hash_state(front.update(at, byte)),
            contents.last(),
            hash_state(front),
            contents.last(),
        );
    }
}

/// The scale of a file whose name carries none, in percent.
pub const DEFAULT_DPI_SCALE: u32 = 100;

/// `text` is nothing, or an extension: a dot and what follows it within the
/// file name.
pub open spec fn is_extension(text: Seq<char>) -> bool {
    text.len() == 0 || (text[0] == '.' && !text.contains('/') && !text.contains('\\'))
}

/// `path` carries a scale: `@` at `at`, which is its last, then digits up
/// to an `x` at `x`, then nothing or the extension; and the scale, which is
/// the digits' number in hundreds, fits.
pub open spec fn scale_suffix_at(path: Seq<char>, at: int, x: int) -> bool {
    &&& 0 <= at < x < path.len()
    &&& path[at] == '@'
    &&& forall|j: int| at < j < path.len() ==> path[j] != '@'
    &&& is_digits(path.subrange(at + 1, x))
    &&& path[x] == 'x'
    &&& is_extension(path.subrange(x + 1, path.len() as int))
    &&& decimal_value(path.subrange(at + 1, x)) * 100 <= u32::MAX
}

/// A path without the mark of its scale, and the scale in percent. The
/// mark, where the path carries one, is cut out and read in hundreds; a
/// path without a mark stands for itself at the default scale.
pub open spec fn spec_split_dpi_scale(path: Seq<char>) -> (Seq<char>, nat) {
    if exists|at: int, x: int| scale_suffix_at(path, at, x) {
        let (at, x) = choose|at: int, x: int| scale_suffix_at(path, at, x);
        (
            path.subrange(0, at) + path.subrange(x + 1, path.len() as int),
            decimal_value(path.subrange(at + 1, x)) * 100,
        )
    } else {
        (path, DEFAULT_DPI_SCALE as nat)
    }
}

/// A path, and the scale that its file name carried.
#[derive(Debug, PartialEq, Eq)]
pub struct ScaledPath {
    /// The path without the mark of the scale.
    pub path_without_dpi_scale: String,
    /// The scale in percent.
    pub dpi_scale: u32,
}

fn is_digit_char(c: char) -> (digit: bool)
    ensures
        digit == is_digit(c),
{
    '0' <= c && c <= '9'
}

fn digit_value(c: char) -> (value: u64)
    requires
        is_digit(c),
    ensures
        value == c as nat - 48,
{
    (c as u32 - 48) as u64
}

/// Reads the scale that the file name of `path` carries, as in
/// `logo@2x.png`, which is the file `logo.png` at 200 percent. A path
/// without such a mark stands for itself at the default scale.
pub fn split_dpi_scale(path: &str) -> (scaled: ScaledPath)
    ensures
        scaled.path_without_dpi_scale@ == spec_split_dpi_scale(path@).0,
        scaled.dpi_scale == spec_split_dpi_scale(path@).1,
{
    let chars = chars_of(path);
    let plain = ScaledPath {
        path_without_dpi_scale: String::from_str(path),
        dpi_scale: DEFAULT_DPI_SCALE,
    };
    // The last `@`.
    let mut at: usize = chars.len();
    while at > 0 && chars[at - 1] != '@'
        invariant
            at <= chars.len(),
            forall|j: int| at <= j < chars.len() ==> chars@[j] != '@',
        decreases at,
    {
        at -= 1;
    }
    if at == 0 {
        assert forall|a: int, x: int| !scale_suffix_at(path@, a, x) by {}
        return plain;
    }
    at -= 1;
    // The digits behind it.
    let mut x: usize = at + 1;
    let mut value: u64 = 0;
    let mut fits = true;
    assert(chars@.subrange(at + 1, x as int) =~= Seq::<char>::empty());
    while x < chars.len() && is_digit_char(chars[x])
        invariant
            at < x <= chars.len(),
            forall|j: int| at < j < x ==> is_digit(chars@[j]),
            fits ==> value == decimal_value(chars@.subrange(at + 1, x as int)) && value * 100
                <= u32::MAX,
            !fits ==> decimal_value(chars@.subrange(at + 1, x as int)) * 100 > u32::MAX,
        decreases chars.len() - x,
    {
        proof {
            let longer = chars@.subrange(at + 1, x + 1);
            assert(longer.drop_last() =~= chars@.subrange(at + 1, x as int));
            assert(longer.last() == chars@[x as int]);
        }
        if fits {
            value = value * 10 + digit_value(chars[x]);
            if value > 42949672 {
                fits = false;
            }
        }
        x += 1;
    }
    let ghost digits = chars@.subrange(at + 1, x as int);
    // Any mark of a scale begins at `at` and ends at `x`.
    assert forall|a: int, end: int| scale_suffix_at(path@, a, end) implies a == at && end == x by {
        if a < at {
            assert(path@[at as int] == '@');
        }
        if a > at {
            assert(path@[a] == '@');
        }
        let theirs = path@.subrange(a + 1, end);
        if end < x {
            assert(is_digit(chars@[end]));
        }
        if end > x {
            assert(theirs[x - a - 1] == path@[x as int]);
            assert(is_digit(theirs[x - a - 1]));
        }
    }
    if x == at + 1 || x == chars.len() || chars[x] != 'x' || !fits {
        assert(!scale_suffix_at(path@, at as int, x as int)) by {
            if x == at + 1 {
                assert(digits.len() == 0);
            }
        }
        return plain;
    }
    // The extension, if any.
    let ghost tail = chars@.subrange(x + 1, chars@.len() as int);
    if x + 1 < chars.len() && chars[x + 1] != '.' {
        assert(tail[0] == chars@[x + 1]);
        assert(!scale_suffix_at(path@, at as int, x as int));
        return plain;
    }
    let mut k: usize = x + 1;
    while k < chars.len()
        invariant
            at < x < k <= chars.len(),
            chars@ == path@,
            plain.path_without_dpi_scale@ == path@,
            plain.dpi_scale == DEFAULT_DPI_SCALE,
            tail == chars@.subrange(x + 1, chars@.len() as int),
            forall|j: int| x < j < k ==> chars@[j] != '/' && chars@[j] != '\\',
            forall|a: int, end: int| scale_suffix_at(path@, a, end) ==> a == at && end == x,
        decreases chars.len() - k,
    {
        if chars[k] == '/' || chars[k] == '\\' {
            assert(tail[k - x - 1] == chars@[k as int]);
            assert(tail.contains(chars@[k as int]));
            assert(!scale_suffix_at(path@, at as int, x as int));
            return plain;
        }
        k += 1;
    }
    proof {
        assert(is_digits(digits)) by {
            assert forall|i: int| 0 <= i < digits.len() implies is_digit(#[trigger] digits[i]) by {
                assert(digits[i] == chars@[at + 1 + i]);
            }
        }
        assert(is_extension(tail)) by {
            if tail.len() > 0 {
                assert(tail[0] == chars@[x + 1]);
                if tail.contains('/') {
                    let j = choose|j: int| 0 <= j < tail.len() && tail[j] == '/';
                    assert(chars@[x + 1 + j] == '/');
                }
                if tail.contains('\\') {
                    let j = choose|j: int| 0 <= j < tail.len() && tail[j] == '\\';
                    assert(chars@[x + 1 + j] == '\\');
                }
            }
        }
        assert(scale_suffix_at(path@, at as int, x as int));
    }
    let mut without = String::new();
    let mut i: usize = 0;
    assert(chars@.subrange(0, 0) =~= Seq::<char>::empty());
    while i < at
        invariant
            i <= at < chars.len(),
            without@ == chars@.subrange(0, i as int),
        decreases at - i,
    {
        push_char(&mut without, chars[i]);
        i += 1;
        assert(without@ =~= chars@.subrange(0, i as int));
    }
    let mut j: usize = x + 1;
    assert(without@ + chars@.subrange(x + 1, j as int) =~= without@);
    while j < chars.len()
        invariant
            at < x < j <= chars.len(),
            without@ == chars@.subrange(0, at as int) + chars@.subrange(x + 1, j as int),
        decreases chars.len() - j,
    {
        push_char(&mut without, chars[j]);
        j += 1;
        assert(without@ =~= chars@.subrange(0, at as int) + chars@.subrange(x + 1, j as int));
    }
    ScaledPath { path_without_dpi_scale: without, dpi_scale: (value * 100) as u32 }
}

/// The settings for the inputs below a directory.
#[derive(Debug, Clone)]
pub struct ConfigRule {
    pub directory: String,
    pub config: InputConfig,
}

/// The rule's directory encloses the path.
pub open spec fn encloses(rule: ConfigRule, path: Seq<char>) -> bool {
    path_strip_prefix(path, rule.directory@) is Some
}

/// How deep the rule's directory lies: the number of its components.
pub open spec fn depth(rule: ConfigRule) -> nat {
    path_components(rule.directory@).len()
}

/// The rule at `index` is the nearest that encloses `path`: it encloses
/// the path, no enclosing rule lies deeper, and of those that lie as deep
/// it is the last.
pub open spec fn is_nearest(rules: Seq<ConfigRule>, path: Seq<char>, index: int) -> bool {
    &&& 0 <= index < rules.len()
    &&& encloses(rules[index], path)
    &&& forall|j: int|
        0 <= j < rules.len() && encloses(#[trigger] rules[j], path) ==> depth(rules[j]) < depth(
            rules[index],
        ) || (depth(rules[j]) == depth(rules[index]) && j <= index)
}

/// The nearest rule that encloses `path`, if any rule encloses it.
pub fn nearest_rule(rules: &Vec<ConfigRule>, path: &str) -> (nearest: Option<usize>)
    ensures
        match nearest {
            Some(index) => is_nearest(rules@, path@, index as int),
            None => forall|j: int| 0 <= j < rules.len() ==> !encloses(#[trigger] rules@[j], path@),
        },
{
    let mut nearest: Option<usize> = None;
    let mut deepest: usize = 0;
    let mut i: usize = 0;
    while i < rules.len()
        invariant
            i <= rules.len(),
            match nearest {
                Some(index) => {
                    &&& index < i
                    &&& deepest == depth(rules@[index as int])
                    &&& is_nearest(rules@.take(i as int), path@, index as int)
                },
                None => forall|j: int| 0 <= j < i ==> !encloses(#[trigger] rules@[j], path@),
            },
        decreases rules.len() - i,
    {
        let ghost before = rules@.take(i as int);
        let ghost after = rules@.take(i + 1);
        let ghost previous = nearest;
        if strip_prefix(path, rules[i].directory.as_str()).is_some() {
            let parts = components(rules[i].directory.as_str());
            let own = parts.len();
            assert(segments_of(parts@).len() == parts@.len());
            let closer = match nearest {
                Some(_) => own >= deepest,
                None => true,
            };
            if closer {
                nearest = Some(i);
                deepest = own;
            }
        }
        proof {
            match nearest {
                Some(index) => {
                    assert forall|j: int|
                        0 <= j < after.len() && encloses(#[trigger] after[j], path@) implies depth(
                        after[j],
                    ) < depth(after[index as int]) || (depth(after[j]) == depth(
                        after[index as int],
                    ) && j <= index) by {
                        if j < i {
                            assert(before[j] == rules@[j]);
                            if previous is Some {
                                assert(encloses(before[j], path@));
                            }
                        }
                    }
                },
                None => {},
            }
        }
        i += 1;
    }
    assert(rules@.take(rules@.len() as int) =~= rules@);
    nearest
}

/// The input that a file comes to: its digest, the scale that its name
/// carries, and the settings of the nearest rule that encloses it. A file
/// that no rule encloses is no input.
pub fn catalog_input(name: String, path: String, contents: Vec<u8>, rules: &Vec<ConfigRule>) -> (input:
    Option<SyncInput>)
    ensures
        match input {
            Some(input) => {
                &&& input.name.text == name
                &&& input.path == path
                &&& input.contents == contents
                &&& input.hash@ == spec_content_hash(contents@)
                &&& input.path_without_dpi_scale@ == spec_split_dpi_scale(path@).0
                &&& input.dpi_scale == spec_split_dpi_scale(path@).1
                &&& input.id is None
                &&& input.slice is None
                &&& exists|index: int| #[trigger]
                    is_nearest(rules@, path@, index) && same_config(
                        input.config,
                        rules@[index].config,
                    )
            },
            None => forall|j: int| 0 <= j < rules.len() ==> !encloses(#[trigger] rules@[j], path@),
        },
{
    match nearest_rule(rules, path.as_str()) {
        None => None,
        Some(index) => {
            let scaled = split_dpi_scale(path.as_str());
            let hash = content_hash(contents.as_slice());
            let rule = &rules[index].config;
            let config = InputConfig {
                packable: rule.packable,
                codegen: rule.codegen,
                codegen_base_path: rule.codegen_base_path.clone(),
            };
            assert(same_config(config, rules@[index as int].config));
            Some(
                SyncInput {
                    name: AssetName { text: name },
                    path,
                    path_without_dpi_scale: scaled.path_without_dpi_scale,
                    dpi_scale: scaled.dpi_scale,
                    config,
                    contents,
                    hash,
                    id: None,
                    slice: None,
                },
            )
        },
    }
}

/// Two settings say the same.
pub open spec fn same_config(a: InputConfig, b: InputConfig) -> bool {
    &&& a.packable == b.packable
    &&& a.codegen == b.codegen
    &&& a.codegen_base_path@ == b.codegen_base_path@
}

} // verus!
