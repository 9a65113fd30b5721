//! What texts, paths and hashes look like, character by character.
use crate::hash::{asset_hash, blake3_digest, hex_char, hex_text};
use crate::ordered_map::{increasing, lemma_increasing_index, map_of};
use crate::paths::{path_joined, Platform};
use crate::roblox::texts;
use crate::text::{decimal_text, digit_char, slashes_replaced, text_less};
use vstd::prelude::*;

verus! {

/// Of two texts that are the same up to position `n`, the one with the smaller
/// character there comes first, and one that ends there comes before one that
/// goes on.
pub proof fn law_first_difference_decides(a: Seq<char>, b: Seq<char>, n: int)
    requires
        0 <= n <= a.len(),
        n <= b.len(),
        forall|i: int| 0 <= i < n ==> #[trigger] a[i] == b[i],
    ensures
        n < a.len() && n < b.len() && a[n] != b[n] ==> (text_less(a, b) <==> (a[n] as int) < (
        b[n] as int)),
        n == a.len() && n < b.len() ==> text_less(a, b) && !text_less(b, a),
        n == a.len() && n == b.len() ==> !text_less(a, b),
    decreases n,
{
    if n > 0 {
        let x = a.drop_first();
        let y = b.drop_first();
        assert(a[0] == b[0]);
        assert forall|i: int| 0 <= i < n - 1 implies #[trigger] x[i] == y[i] by {
            assert(a[i + 1] == b[i + 1]);
        }
        law_first_difference_decides(x, y, n - 1);
    }
}

/// Of two keys of a map, the earlier one has the smaller character where they
/// first differ, or ends there; and no key stands there twice.
pub proof fn law_keys_stand_in_order(keys: Seq<Seq<char>>, i: int, j: int, n: int)
    requires
        increasing(keys),
        0 <= i < j < keys.len(),
        0 <= n <= keys[i].len(),
        n <= keys[j].len(),
        forall|m: int| 0 <= m < n ==> #[trigger] keys[i][m] == keys[j][m],
    ensures
        n < keys[i].len() && n < keys[j].len() ==> (keys[i][n] as int) <= (keys[j][n] as int),
        n == keys[i].len() ==> n < keys[j].len(),
        keys[i] != keys[j],
{
    assert(text_less(keys[i], keys[j]));
    law_first_difference_decides(keys[i], keys[j], n);
    assert forall|m: int| 0 <= m < n implies #[trigger] keys[j][m] == keys[i][m] by {
        assert(keys[i][m] == keys[j][m]);
    }
    law_first_difference_decides(keys[j], keys[i], n);
    if keys[i] == keys[j] {
        law_first_difference_decides(keys[i], keys[i], keys[i].len() as int);
    }
}

/// A map holds under each of its keys the value at the key's position, and has
/// no other keys.
pub proof fn law_values_stand_under_their_keys<V>(
    keys: Seq<Seq<char>>,
    values: Seq<V>,
    i: int,
    key: Seq<char>,
)
    requires
        increasing(keys),
        0 <= i < keys.len(),
        forall|j: int| 0 <= j < keys.len() ==> #[trigger] keys[j] != key,
    ensures
        map_of(keys, values).contains_key(keys[i]),
        map_of(keys, values)[keys[i]] == values[i],
        !map_of(keys, values).contains_key(key),
{
    lemma_increasing_index(keys, i);
}

/// Replacing slashes turns each backslash into a slash and keeps every other
/// character where it is.
pub proof fn law_slashes_are_replaced_one_by_one(s: Seq<char>, i: int)
    requires
        0 <= i < s.len(),
    ensures
        slashes_replaced(s).len() == s.len(),
        s[i] == '\\' ==> slashes_replaced(s)[i] == '/',
        s[i] != '\\' ==> slashes_replaced(s)[i] == s[i],
{
}

/// The number that a text of digits stands for.
pub open spec fn number_of(s: Seq<char>) -> int
    decreases s.len(),
{
    if s.len() == 0 {
        0
    } else {
        10 * number_of(s.drop_last()) + (s.last() as int - '0' as int)
    }
}

/// A number is written in digits that stand for it, without needless zeros.
pub proof fn law_decimals_stand_for_their_number(n: nat)
    ensures
        number_of(decimal_text(n)) == n,
        forall|i: int|
            0 <= i < decimal_text(n).len() ==> '0' <= #[trigger] decimal_text(n)[i] <= '9',
        decimal_text(n).len() > 0,
        decimal_text(n)[0] == '0' ==> n == 0 && decimal_text(n).len() == 1,
    decreases n,
{
    if n < 10 {
        let s = seq![digit_char(n)];
        assert(decimal_text(n) == s);
        assert(s.drop_last() =~= Seq::<char>::empty());
        reveal_with_fuel(number_of, 2);
    } else {
        law_decimals_stand_for_their_number(n / 10);
        let s = decimal_text(n);
        let front = decimal_text(n / 10);
        assert(s.drop_last() =~= front);
        assert(s[0] == front[0]);
        assert forall|i: int| 0 <= i < s.len() implies '0' <= #[trigger] s[i] <= '9' by {
            if i < front.len() {
                assert(s[i] == front[i]);
            }
        }
    }
}

/// The number that a hexadecimal digit stands for.
pub open spec fn hex_value(c: char) -> int {
    if '0' <= c <= '9' {
        c as int - '0' as int
    } else {
        10 + (c as int - 'a' as int)
    }
}

/// Whether a character is a digit or one of the first six lower case letters.
pub open spec fn is_hex(c: char) -> bool {
    '0' <= c <= '9' || 'a' <= c <= 'f'
}

/// Each byte is written as two hexadecimal digits that stand for it.
pub proof fn law_hexadecimals_stand_for_their_bytes(bytes: Seq<u8>, i: int)
    requires
        0 <= i < bytes.len(),
    ensures
        hex_text(bytes).len() == 2 * bytes.len(),
        is_hex(hex_text(bytes)[2 * i]),
        is_hex(hex_text(bytes)[2 * i + 1]),
        16 * hex_value(hex_text(bytes)[2 * i]) + hex_value(hex_text(bytes)[2 * i + 1])
            == bytes[i],
{
    let high = (bytes[i] / 16) as nat;
    let low = (bytes[i] % 16) as nat;
    assert((2 * i) % 2 == 0 && (2 * i) / 2 == i);
    assert((2 * i + 1) % 2 == 1 && (2 * i + 1) / 2 == i);
    assert(hex_text(bytes)[2 * i] == hex_char(high));
    assert(hex_text(bytes)[2 * i + 1] == hex_char(low));
}

/// The hash of some contents is the digest of all of them, written out byte by
/// byte.
pub proof fn law_hashes_are_written_digests(content: Seq<u8>, i: int)
    requires
        0 <= i < blake3_digest(content).len(),
    ensures
        ({
            let hash = asset_hash(content);
            let digest = blake3_digest(content);
            &&& hash.len() == 2 * digest.len()
            &&& is_hex(hash[2 * i]) && is_hex(hash[2 * i + 1])
            &&& 16 * hex_value(hash[2 * i]) + hex_value(hash[2 * i + 1]) == digest[i]
        }),
{
    law_hexadecimals_stand_for_their_bytes(blake3_digest(content), i);
}

/// Where only slashes separate, a path that begins at the root is taken as it
/// is, and any other is put behind the first one, with one slash between the two
/// if there is something to separate and no slash yet.
pub proof fn law_paths_are_joined_with_slashes(
    platform: Platform,
    base: Seq<char>,
    rest: Seq<char>,
)
    requires
        !platform.backslash_separates(),
    ensures
        ({
            let path = path_joined(platform, base, rest);
            let absolute = rest.len() > 0 && rest[0] == '/';
            let bare = base.len() == 0 || base[base.len() - 1] == '/';
            &&& absolute ==> path == rest
            &&& !absolute && bare ==> path == base + rest
            &&& !absolute && !bare ==> path == base + "/"@ + rest
        }),
{
    reveal_strlit("/");
    assert(base.push('/') + rest =~= base + "/"@ + rest);
}

/// Where backslashes separate too, a plain name is put behind a plain path with
/// the platform's separator between the two, if no separator is there yet.
pub proof fn law_plain_names_are_joined_natively(
    platform: Platform,
    base: Seq<char>,
    name: Seq<char>,
)
    requires
        platform.backslash_separates(),
        base.len() > 0,
        base[0] != '/' && base[0] != '\\',
        base[base.len() - 1] != ':',
        name.len() > 0,
        name[0] != '/' && name[0] != '\\',
        name.len() > 1 ==> name[1] != ':',
    ensures
        ({
            let path = path_joined(platform, base, name);
            let last = base[base.len() - 1];
            &&& last == '/' || last == '\\' ==> path == base + name
            &&& last != '/' && last != '\\' ==> path == base + seq![platform.separator()] + name
        }),
{
    assert(base.push(platform.separator()) + name =~= base + seq![platform.separator()] + name);
}

/// Texts are told by their characters, one text after another.
pub proof fn law_texts_are_told_by_their_characters(items: Seq<String>, i: int)
    requires
        0 <= i < items.len(),
    ensures
        texts(items).len() == items.len(),
        texts(items)[i] == items[i]@,
{
}

} // verus!
