//! The code under which a device can be found, made from its MAC address.

use crate::text::{
    chars_of, fields, is_white_space, law_fields_lie_between_separators, law_lower_case_by_number,
    law_trim_takes_off_white_space, lowercase_ascii, same, split, string_of, texts,
    to_ascii_lowercase, trim, trim_end, trim_start, trimmed,
};
use vstd::prelude::*;
use vstd::utf8::encode_utf8;

verus! {

/// The number of characters of a listen code.
pub const LISTEN_CODE_LEN: usize = 8;

/// How many different listen codes there are: 36 to the power of
/// [`LISTEN_CODE_LEN`].
pub const LISTEN_CODE_COUNT: u64 = 2_821_109_907_456;

/// What a network interface is called and the address it reports, if it can be
/// read.
#[derive(Debug, PartialEq, Eq)]
pub struct NetworkInterface {
    pub name: String,
    pub address: Option<String>,
}

/// A hexadecimal digit in either case.
pub open spec fn is_hex_digit(c: char) -> bool {
    '0' <= c <= '9' || 'a' <= c <= 'f' || 'A' <= c <= 'F'
}

/// Two hexadecimal digits.
pub open spec fn is_hex_pair(s: Seq<char>) -> bool {
    s.len() == 2 && is_hex_digit(s[0]) && is_hex_digit(s[1])
}

/// Six pairs of hexadecimal digits with colons between them.
pub open spec fn is_mac(s: Seq<char>) -> bool {
    let parts = split(s, ':');
    parts.len() == 6 && forall|i: int| 0 <= i < 6 ==> is_hex_pair(#[trigger] parts[i])
}

/// A MAC address without white space around it and in lower case.
pub open spec fn normalized_mac(mac: Seq<char>) -> Seq<char> {
    to_ascii_lowercase(trim(mac))
}

/// See [`normalized_mac`].
pub fn normalize_mac_address(mac: &str) -> (r: String)
    ensures
        r@ == normalized_mac(mac@),
{
    lowercase_ascii(trimmed(mac).as_str())
}

fn is_hex(c: char) -> (r: bool)
    ensures
        r == is_hex_digit(c),
{
    ('0' <= c && c <= '9') || ('a' <= c && c <= 'f') || ('A' <= c && c <= 'F')
}

/// See [`is_mac`].
pub fn is_valid_mac_address(mac: &str) -> (r: bool)
    ensures
        r == is_mac(mac@),
{
    let parts = fields(mac, ':');
    assert(texts(parts@).len() == parts@.len());
    if parts.len() != 6 {
        return false;
    }
    let mut i: usize = 0;
    while i < 6
        invariant
            i <= 6,
            parts@.len() == 6,
            texts(parts@) == split(mac@, ':'),
            forall|j: int| 0 <= j < i ==> is_hex_pair(#[trigger] texts(parts@)[j]),
        decreases 6 - i,
    {
        assert(texts(parts@)[i as int] == parts@[i as int]@);
        let part = chars_of(parts[i].as_str());
        if part.len() != 2 || !is_hex(part[0]) || !is_hex(part[1]) {
            return false;
        }
        i += 1;
    }
    true
}

/// The FNV-1a hash of some bytes, in 64 bits.
pub open spec fn fnv_1a(bytes: Seq<u8>) -> u64
    decreases bytes.len(),
{
    if bytes.len() == 0 {
        0xcbf29ce484222325
    } else {
        (((fnv_1a(bytes.drop_last()) ^ (bytes.last() as u64)) * 0x100000001b3)
            % 0x1_0000_0000_0000_0000) as u64
    }
}

/// The character of a digit to the base of 36.
pub open spec fn base36_digit(d: int) -> char {
    if d < 10 {
        ('0' as u8 + d) as u8 as char
    } else {
        ('a' as u8 + d - 10) as u8 as char
    }
}

/// A number to the base of 36, with exactly `len` digits.
pub open spec fn base36(n: nat, len: nat) -> Seq<char>
    decreases len,
{
    if len == 0 {
        Seq::empty()
    } else {
        base36(n / 36, (len - 1) as nat).push(base36_digit((n % 36) as int))
    }
}

/// The listen code of a MAC address.
pub open spec fn listen_code(mac: Seq<char>) -> Seq<char> {
    base36(
        (fnv_1a(encode_utf8(normalized_mac(mac))) % LISTEN_CODE_COUNT) as nat,
        LISTEN_CODE_LEN as nat,
    )
}

fn base36_char(d: u64) -> (r: char)
    requires
        d < 36,
    ensures
        r == base36_digit(d as int),
{
    if d < 10 {
        (48 + d as u8) as char
    } else {
        (87 + d as u8) as char
    }
}

/// See [`listen_code`].
pub fn hash_mac_to_eight_char_code(mac: &str) -> (r: String)
    ensures
        r@ == listen_code(mac@),
{
    let normalized_mac = normalize_mac_address(mac);
    let bytes = normalized_mac.as_str().as_bytes();
    let mut hash: u64 = 0xcbf29ce484222325;
    let mut i: usize = 0;
    while i < bytes.len()
        invariant
            i <= bytes@.len(),
            hash == fnv_1a(bytes@.take(i as int)),
        decreases bytes@.len() - i,
    {
        proof {
            assert(bytes@.take(i + 1).drop_last() =~= bytes@.take(i as int));
            assert(bytes@.take(i + 1).last() == bytes@[i as int]);
        }
        hash = hash ^ (bytes[i] as u64);
        let product: u128 = (hash as u128) * 0x100000001b3;
        hash = (product % 0x1_0000_0000_0000_0000) as u64;
        i += 1;
    }
    assert(bytes@.take(i as int) =~= bytes@);
    let value: u64 = hash % LISTEN_CODE_COUNT;
    let digits = base36_digits(value, LISTEN_CODE_LEN);
    string_of(&digits)
}

fn base36_digits(value: u64, len: usize) -> (r: Vec<char>)
    ensures
        r@ == base36(value as nat, len as nat),
    decreases len,
{
    if len == 0 {
        Vec::new()
    } else {
        let mut digits = base36_digits(value / 36, len - 1);
        digits.push(base36_char(value % 36));
        digits
    }
}

/// Whether one text comes before another, character by character.
pub open spec fn comes_before(a: Seq<char>, b: Seq<char>) -> bool
    decreases a.len(),
{
    if b.len() == 0 {
        false
    } else if a.len() == 0 {
        true
    } else {
        a[0] < b[0] || (a[0] == b[0] && comes_before(a.skip(1), b.skip(1)))
    }
}

/// See [`comes_before`].
fn is_before(a: &str, b: &str) -> (r: bool)
    ensures
        r == comes_before(a@, b@),
{
    let left = chars_of(a);
    let right = chars_of(b);
    let mut i: usize = 0;
    assert(left@.skip(0) =~= left@ && right@.skip(0) =~= right@);
    while i < left.len() && i < right.len()
        invariant
            i <= left@.len(),
            i <= right@.len(),
            comes_before(a@, b@) == comes_before(left@.skip(i as int), right@.skip(i as int)),
        decreases left@.len() - i,
    {
        proof {
            assert(left@.skip(i as int).skip(1) =~= left@.skip(i + 1));
            assert(right@.skip(i as int).skip(1) =~= right@.skip(i + 1));
        }
        if left[i] != right[i] {
            return left[i] < right[i];
        }
        i += 1;
    }
    i < right.len()
}

/// Whether an interface has an address that can be used: it is not the loopback,
/// and its address is a MAC address other than all zeros.
pub open spec fn is_usable(interface: NetworkInterface) -> bool {
    interface.name@ != "lo"@ && (interface.address matches Some(address) && is_mac(
        normalized_mac(address@),
    ) && normalized_mac(address@) != "00:00:00:00:00:00"@)
}

/// Whether the interface at `at` is the one whose address stands for the device:
/// of those that can be used, none has a name that comes before its own.
pub open spec fn is_primary(interfaces: Seq<NetworkInterface>, at: int) -> bool {
    &&& 0 <= at < interfaces.len()
    &&& is_usable(interfaces[at])
    &&& forall|j: int|
        0 <= j < interfaces.len() && is_usable(#[trigger] interfaces[j]) ==> !comes_before(
            interfaces[j].name@,
            interfaces[at].name@,
        )
}

proof fn lemma_before_is_transitive(a: Seq<char>, b: Seq<char>, c: Seq<char>)
    requires
        comes_before(a, b),
        !comes_before(c, b),
    ensures
        !comes_before(c, a),
    decreases a.len(),
{
    if a.len() > 0 && c.len() > 0 && b.len() > 0 {
        if a[0] == b[0] && c[0] == b[0] {
            lemma_before_is_transitive(a.skip(1), b.skip(1), c.skip(1));
        }
    }
}

proof fn lemma_before_is_irreflexive(a: Seq<char>)
    ensures
        !comes_before(a, a),
    decreases a.len(),
{
    if a.len() > 0 {
        lemma_before_is_irreflexive(a.skip(1));
    }
}

/// The MAC address that stands for the device, out of its network interfaces.
pub fn get_primary_mac_address(interfaces: &Vec<NetworkInterface>) -> (r: Result<String, String>)
    ensures
        r is Ok <==> exists|i: int|
            0 <= i < interfaces@.len() && is_usable(#[trigger] interfaces@[i]),
        r matches Ok(mac) ==> exists|i: int| #[trigger]
            is_primary(interfaces@, i) && mac@ == normalized_mac(interfaces@[i].address->0@),
        r matches Err(err) ==> err@ == "no usable mac address found under /sys/class/net"@,
{
    let mut best: Option<usize> = None;
    let mut mac = String::new();
    let mut i: usize = 0;
    while i < interfaces.len()
        invariant
            i <= interfaces@.len(),
            match best {
                None => forall|j: int| 0 <= j < i ==> !is_usable(#[trigger] interfaces@[j]),
                Some(b) => {
                    &&& b < i
                    &&& is_usable(interfaces@[b as int])
                    &&& mac@ == normalized_mac(interfaces@[b as int].address->0@)
                    &&& forall|j: int|
                        0 <= j < i && is_usable(#[trigger] interfaces@[j]) ==> !comes_before(
                            interfaces@[j].name@,
                            interfaces@[b as int].name@,
                        )
                },
            },
        decreases interfaces@.len() - i,
    {
        let interface = &interfaces[i];
        if !same(interface.name.as_str(), "lo") {
            match &interface.address {
                Some(address) => {
                    let address = normalize_mac_address(address.as_str());
                    if is_valid_mac_address(address.as_str()) && !same(
                        address.as_str(),
                        "00:00:00:00:00:00",
                    ) {
                        let better = match best {
                            None => true,
                            Some(b) => is_before(
                                interface.name.as_str(),
                                interfaces[b].name.as_str(),
                            ),
                        };
                        if better {
                            proof {
                                lemma_before_is_irreflexive(interface.name@);
                                if let Some(b) = best {
                                    assert forall|j: int|
                                        0 <= j < i && is_usable(
                                            #[trigger] interfaces@[j],
                                        ) implies !comes_before(
                                        interfaces@[j].name@,
                                        interface.name@,
                                    ) by {
                                        lemma_before_is_transitive(
                                            interface.name@,
                                            interfaces@[b as int].name@,
                                            interfaces@[j].name@,
                                        );
                                    }
                                }
                            }
                            best = Some(i);
                            mac = address;
                        }
                    }
                },
                None => {},
            }
        }
        i += 1;
    }
    match best {
        Some(b) => {
            assert(is_primary(interfaces@, b as int));
            Ok(mac)
        },
        None => Err("no usable mac address found under /sys/class/net".to_string()),
    }
}

/// The listen code of the device, out of its network interfaces.
pub fn get_device_listen_code(interfaces: &Vec<NetworkInterface>) -> (r: Result<String, String>)
    ensures
        r is Ok <==> exists|i: int|
            0 <= i < interfaces@.len() && is_usable(#[trigger] interfaces@[i]),
        r matches Ok(code) ==> exists|i: int| #[trigger]
            is_primary(interfaces@, i) && code@ == listen_code(
                normalized_mac(interfaces@[i].address->0@),
            ),
        r matches Err(err) ==> err@ == "no usable mac address found under /sys/class/net"@,
{
    match get_primary_mac_address(interfaces) {
        Ok(mac) => Ok(hash_mac_to_eight_char_code(mac.as_str())),
        Err(err) => Err(err),
    }
}

/// A digit or a lower-case letter.
pub open spec fn is_code_char(c: char) -> bool {
    '0' <= c <= '9' || 'a' <= c <= 'z'
}

/// Every listen code has eight characters, all of them digits and lower-case
/// letters.
pub proof fn law_listen_code_shape(mac: Seq<char>)
    ensures
        listen_code(mac).len() == 8,
        forall|i: int| 0 <= i < 8 ==> is_code_char(#[trigger] listen_code(mac)[i]),
{
    lemma_base36_shape(
        (fnv_1a(encode_utf8(normalized_mac(mac))) % LISTEN_CODE_COUNT) as nat,
        LISTEN_CODE_LEN as nat,
    );
}

proof fn lemma_base36_shape(n: nat, len: nat)
    ensures
        base36(n, len).len() == len,
        forall|i: int| 0 <= i < len ==> is_code_char(#[trigger] base36(n, len)[i]),
    decreases len,
{
    if len > 0 {
        lemma_base36_shape(n / 36, (len - 1) as nat);
    }
}

/// The case of the letters of an address does not matter.
pub proof fn law_listen_code_ignores_case(mac: Seq<char>, other: Seq<char>)
    requires
        to_ascii_lowercase(mac) == to_ascii_lowercase(other),
    ensures
        listen_code(mac) == listen_code(other),
{
    lemma_trim_keeps_case(mac);
    lemma_trim_keeps_case(other);
}

/// White space around an address does not matter.
pub proof fn law_listen_code_ignores_white_space(mac: Seq<char>)
    ensures
        listen_code(trim(mac)) == listen_code(mac),
{
    lemma_trim_twice(mac);
}

proof fn lemma_trim_keeps_case(s: Seq<char>)
    ensures
        to_ascii_lowercase(trim(s)) == trim(to_ascii_lowercase(s)),
{
    lemma_trim_start_keeps_case(s);
    lemma_trim_end_keeps_case(trim_start(s));
}

proof fn lemma_trim_start_keeps_case(s: Seq<char>)
    ensures
        to_ascii_lowercase(trim_start(s)) == trim_start(to_ascii_lowercase(s)),
    decreases s.len(),
{
    if s.len() > 0 {
        lemma_trim_start_keeps_case(s.drop_first());
        assert(to_ascii_lowercase(s.drop_first()) =~= to_ascii_lowercase(s).drop_first());
    }
}

proof fn lemma_trim_end_keeps_case(s: Seq<char>)
    ensures
        to_ascii_lowercase(trim_end(s)) == trim_end(to_ascii_lowercase(s)),
    decreases s.len(),
{
    if s.len() > 0 {
        lemma_trim_end_keeps_case(s.drop_last());
        assert(to_ascii_lowercase(s.drop_last()) =~= to_ascii_lowercase(s).drop_last());
    }
}

proof fn lemma_trim_twice(s: Seq<char>)
    ensures
        trim(trim(s)) == trim(s),
{
    lemma_trim_start_is_clean(s);
    lemma_trim_end_is_clean(trim_start(s));
    let t = trim(s);
    assert(trim_start(t) == t);
    assert(trim_end(t) == t);
}

proof fn lemma_trim_start_is_clean(s: Seq<char>)
    ensures
        trim_start(s).len() > 0 ==> !is_white_space(trim_start(s)[0]),
    decreases s.len(),
{
    if s.len() > 0 && is_white_space(s[0]) {
        lemma_trim_start_is_clean(s.drop_first());
    }
}

proof fn lemma_trim_end_is_clean(s: Seq<char>)
    ensures
        trim_end(s).len() > 0 ==> !is_white_space(trim_end(s).last()) && trim_end(s)[0] == s[0],
        trim_end(s).len() <= s.len(),
    decreases s.len(),
{
    if s.len() > 0 && is_white_space(s.last()) {
        lemma_trim_end_is_clean(s.drop_last());
    }
}

/// The number of listen codes is what their length and alphabet allow.
pub proof fn law_listen_code_count()
    ensures
        LISTEN_CODE_COUNT == 36 * 36 * 36 * 36 * 36 * 36 * 36 * 36,
{
}

/// A MAC address has seventeen characters: a colon at every third place, and hexadecimal digits
/// everywhere else. Nothing else is one.
pub proof fn law_mac_has_six_pairs(s: Seq<char>)
    ensures
        is_mac(s) <==> s.len() == 17 && forall|i: int|
            0 <= i < 17 ==> if i % 3 == 2 {
                #[trigger] s[i] == ':'
            } else {
                '0' <= s[i] <= '9' || 'a' <= s[i] <= 'f' || 'A' <= s[i] <= 'F'
            },
{
    lemma_pairs(s, 6);
}

/// Some pairs of hexadecimal digits with colons between them.
spec fn is_pairs(s: Seq<char>, n: nat) -> bool {
    let parts = split(s, ':');
    parts.len() == n && forall|i: int| 0 <= i < n ==> is_hex_pair(#[trigger] parts[i])
}

/// The same, by the places of the characters.
spec fn lies_in_pairs(s: Seq<char>, n: nat) -> bool {
    s.len() == 3 * n - 1 && forall|i: int|
        0 <= i < s.len() ==> if i % 3 == 2 {
            #[trigger] s[i] == ':'
        } else {
            is_hex_digit(s[i])
        }
}

proof fn lemma_pairs(s: Seq<char>, n: nat)
    requires
        n > 0,
    ensures
        is_pairs(s, n) <==> lies_in_pairs(s, n),
    decreases n,
{
    if s.contains(':') {
        let at = s.index_of_first(':')->0;
        s.index_of_first_ensures(':');
        let first = s.take(at);
        let rest = s.skip(at + 1);
        assert(!first.contains(':')) by {
            if first.contains(':') {
                let i = choose|i: int| 0 <= i < first.len() && first[i] == ':';
                assert(s[i] == ':');
            }
        }
        assert(first.push(':') + rest =~= s);
        law_fields_lie_between_separators(first, rest, ':');
        let parts = split(s, ':');
        let more = split(rest, ':');
        assert(parts[0] == first);
        if n == 1 {
            lemma_has_a_field(rest);
            assert(parts.len() > 1);
            if lies_in_pairs(s, n) {
                assert(s[at] == ':');
                assert(at < 2);
            }
        } else {
            lemma_pairs(rest, (n - 1) as nat);
            if is_pairs(s, n) {
                assert forall|i: int| 0 <= i < n - 1 implies is_hex_pair(#[trigger] more[i]) by {
                    assert(more[i] == parts[i + 1]);
                }
                assert(is_hex_pair(parts[0]));
                assert(at == 2);
                assert forall|i: int| 0 <= i < s.len() implies if i % 3 == 2 {
                    #[trigger] s[i] == ':'
                } else {
                    is_hex_digit(s[i])
                } by {
                    if i < 2 {
                        assert(s[i] == first[i]);
                    } else if i > 2 {
                        assert(s[i] == rest[i - 3]);
                        assert((i - 3) % 3 == i % 3);
                    }
                }
            }
            if lies_in_pairs(s, n) {
                assert(s[2] == ':');
                assert(at == 2) by {
                    if at < 2 {
                        assert(s[at] == ':');
                    }
                }
                assert forall|i: int| 0 <= i < rest.len() implies if i % 3 == 2 {
                    #[trigger] rest[i] == ':'
                } else {
                    is_hex_digit(rest[i])
                } by {
                    assert(rest[i] == s[i + 3]);
                    assert((i + 3) % 3 == i % 3);
                }
                assert forall|i: int| 0 <= i < n implies is_hex_pair(#[trigger] parts[i]) by {
                    if i == 0 {
                        assert(first[0] == s[0] && first[1] == s[1]);
                    } else {
                        assert(parts[i] == more[i - 1]);
                    }
                }
            }
        }
    } else {
        law_fields_lie_between_separators(s, Seq::empty(), ':');
        let parts = split(s, ':');
        assert(parts[0] == s);
        if lies_in_pairs(s, n) && n > 1 {
            assert(s[2] == ':');
        }
        if lies_in_pairs(s, n) && n == 1 {
            assert(is_hex_digit(s[0]) && is_hex_digit(s[1]));
        }
    }
}

proof fn lemma_has_a_field(s: Seq<char>)
    ensures
        split(s, ':').len() > 0,
    decreases s.len(),
{
    if s.len() > 0 {
        lemma_has_a_field(s.drop_last());
    }
}

/// White space around an address is taken off, and its letters become small; everything else stays.
pub proof fn law_address_is_kept_in_small_letters(
    before: Seq<char>,
    mac: Seq<char>,
    after: Seq<char>,
)
    requires
        forall|i: int| 0 <= i < before.len() ==> is_white_space(#[trigger] before[i]),
        forall|i: int| 0 <= i < after.len() ==> is_white_space(#[trigger] after[i]),
        mac.len() > 0 ==> !is_white_space(mac[0]) && !is_white_space(mac.last()),
    ensures
        normalized_mac(before + mac + after).len() == mac.len(),
        forall|i: int|
            0 <= i < mac.len() ==> (#[trigger] normalized_mac(before + mac + after)[i]) as u32
                == mac[i] as u32 + if 65 <= mac[i] as u32 <= 90 {
                32int
            } else {
                0int
            },
{
    law_trim_takes_off_white_space(before, mac, after);
    law_lower_case_by_number(mac);
}

/// The hash goes byte by byte: each is mixed in and the result multiplied, modulo two to the power
/// of 64.
pub proof fn law_hash_goes_byte_by_byte(bytes: Seq<u8>, byte: u8)
    ensures
        fnv_1a(Seq::empty()) == 14695981039346656037,
        fnv_1a(bytes.push(byte)) == ((fnv_1a(bytes) ^ (byte as u64)) * 1099511628211)
            % 18446744073709551616,
{
    assert(bytes.push(byte).drop_last() =~= bytes);
}

/// The number that a listen code writes, to the base of 36.
pub open spec fn code_value(code: Seq<char>) -> int
    decreases code.len(),
{
    if code.len() == 0 {
        0
    } else {
        36 * code_value(code.drop_last()) + if code.last() <= '9' {
            code.last() as int - '0' as int
        } else {
            code.last() as int - 'a' as int + 10
        }
    }
}

/// A listen code writes the hash of the address, modulo the number of codes.
pub proof fn law_listen_code_is_the_hash(mac: Seq<char>)
    ensures
        code_value(listen_code(mac)) == fnv_1a(encode_utf8(normalized_mac(mac))) as int
            % 2821109907456,
{
    let n = (fnv_1a(encode_utf8(normalized_mac(mac))) % LISTEN_CODE_COUNT) as nat;
    reveal_with_fuel(thirty_six, 9);
    lemma_code_value(n, 8);
}

spec fn thirty_six(n: nat) -> nat
    decreases n,
{
    if n == 0 {
        1
    } else {
        36 * thirty_six((n - 1) as nat)
    }
}

proof fn lemma_code_value(n: nat, len: nat)
    requires
        n < thirty_six(len),
    ensures
        code_value(base36(n, len)) == n,
    decreases len,
{
    if len > 0 {
        let fewer = (len - 1) as nat;
        lemma_code_value(n / 36, fewer);
        assert(base36(n, len).drop_last() =~= base36(n / 36, fewer));
    }
}

/// Names are ordered by their first character that differs; a name that ends before comes first.
pub proof fn law_names_are_ordered_by_their_first_difference(
    same: Seq<char>,
    a: Seq<char>,
    b: Seq<char>,
)
    ensures
        comes_before(same + a, same + b) == comes_before(a, b),
        b.len() == 0 ==> !comes_before(a, b),
        a.len() == 0 && b.len() > 0 ==> comes_before(a, b),
        a.len() > 0 && b.len() > 0 && a[0] != b[0] ==> (comes_before(a, b) <==> a[0] < b[0]),
    decreases same.len(),
{
    if same.len() == 0 {
        assert(same + a =~= a && same + b =~= b);
    } else {
        let rest = same.skip(1);
        assert((same + a).skip(1) =~= rest + a);
        assert((same + b).skip(1) =~= rest + b);
        law_names_are_ordered_by_their_first_difference(rest, a, b);
    }
}

/// An interface can be used exactly if it is not the loopback and has a MAC address that is not all
/// zeros; the one that stands for the device is usable, and no usable one has a name before its own.
pub proof fn law_primary_interface_has_the_first_name(
    interfaces: Seq<NetworkInterface>,
    at: int,
    other: int,
)
    ensures
        0 <= at < interfaces.len() ==> (is_usable(interfaces[at]) <==> interfaces[at].name@ != "lo"@
            && interfaces[at].address is Some && is_mac(
            normalized_mac(interfaces[at].address->0@),
        ) && normalized_mac(interfaces[at].address->0@) != "00:00:00:00:00:00"@),
        is_primary(interfaces, at) ==> 0 <= at < interfaces.len() && is_usable(interfaces[at]),
        is_primary(interfaces, at) && 0 <= other < interfaces.len() && is_usable(interfaces[other])
            ==> !comes_before(interfaces[other].name@, interfaces[at].name@),
        normalized_mac(interfaces[at].address->0@) == to_ascii_lowercase(
            trim(interfaces[at].address->0@),
        ),
{
}

/// Addresses and codes are made as the laws about them say, out of every address.
pub proof fn law_addresses_and_codes(mac: &str, r: String, holds: bool)
    ensures
        call_ensures(normalize_mac_address, (mac,), r) ==> r@ == normalized_mac(mac@),
        call_ensures(is_valid_mac_address, (mac,), holds) ==> holds == is_mac(mac@),
        call_ensures(hash_mac_to_eight_char_code, (mac,), r) ==> r@.len() == 8 && code_value(r@)
            == fnv_1a(encode_utf8(normalized_mac(mac@))) as int % 2821109907456,
{
    law_listen_code_shape(mac@);
    law_listen_code_is_the_hash(mac@);
}

/// The device goes by the address of its first usable interface, if it has one.
pub proof fn law_device_goes_by_its_first_interface(
    interfaces: &Vec<NetworkInterface>,
    r: Result<String, String>,
    at: int,
)
    requires
        0 <= at < interfaces@.len(),
        is_usable(interfaces@[at]),
        forall|j: int|
            0 <= j < interfaces@.len() && j != at && is_usable(#[trigger] interfaces@[j]) ==> comes_before(
                interfaces@[at].name@,
                interfaces@[j].name@,
            ),
    ensures
        call_ensures(get_primary_mac_address, (interfaces,), r) ==> (r matches Ok(mac) && mac@
            == normalized_mac(interfaces@[at].address->0@)),
        call_ensures(get_device_listen_code, (interfaces,), r) ==> (r matches Ok(code) && code@
            == listen_code(normalized_mac(interfaces@[at].address->0@))),
{
    assert forall|i: int| is_primary(interfaces@, i) implies i == at by {
        if i != at {
            assert(is_usable(interfaces@[i]));
            assert(!comes_before(interfaces@[at].name@, interfaces@[i].name@));
        }
    }
}

/// A device without a usable interface has no address.
pub proof fn law_device_without_an_interface_has_no_address(
    interfaces: &Vec<NetworkInterface>,
    r: Result<String, String>,
)
    requires
        forall|j: int| 0 <= j < interfaces@.len() ==> !is_usable(#[trigger] interfaces@[j]),
        call_ensures(get_primary_mac_address, (interfaces,), r) || call_ensures(
            get_device_listen_code,
            (interfaces,),
            r,
        ),
    ensures
        r matches Err(err) && err@ == "no usable mac address found under /sys/class/net"@,
{
}

} // verus!
