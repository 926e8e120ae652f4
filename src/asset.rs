use vstd::prelude::*;

verus! {

/// The character of a decimal digit `d < 10`.
pub open spec fn digit_char(d: nat) -> char {
    seq!['0', '1', '2', '3', '4', '5', '6', '7', '8', '9'][d as int]
}

pub open spec fn is_digit(c: char) -> bool {
    '0' <= c && c <= '9'
}

/// The value of a digit character.
pub open spec fn digit_value(c: char) -> nat {
    (c as u32 - '0' as u32) as nat
}

/// Canonical decimal text of `n`: no sign, no leading zero.
pub open spec fn decimal(n: nat) -> Seq<char>
    decreases n,
{
    if n < 10 {
        seq![digit_char(n)]
    } else {
        decimal(n / 10) + seq![digit_char(n % 10)]
    }
}

/// The number that a string of digits spells.
pub open spec fn digits_value(d: Seq<char>) -> nat
    decreases d.len(),
{
    if d.len() == 0 {
        0
    } else {
        digits_value(d.drop_last()) * 10 + digit_value(d.last())
    }
}

/// Digits only, at least one, and no leading zero unless the text is `0` itself.
pub open spec fn is_canonical_decimal(d: Seq<char>) -> bool {
    &&& d.len() > 0
    &&& forall|i: int| 0 <= i < d.len() ==> is_digit(#[trigger] d[i])
    &&& (d.len() > 1 ==> d[0] != '0')
}

/// The extension of every cached asset file.
pub open spec fn asset_extension() -> Seq<char> {
    seq!['.', 's', 'w', 'f']
}

/// The name of the cache file that holds asset `id`: `<id>.swf`.
pub open spec fn asset_file_name_of(id: nat) -> Seq<char> {
    decimal(id) + asset_extension()
}

/// The fixed prefix of every origin URL.
pub open spec fn origin_prefix() -> Seq<char> {
    "https://seer2-pet-resource.yuuinih.com/public/fight/"@
}

/// The URL from which asset `id` is fetched.
pub open spec fn origin_url_of(id: nat) -> Seq<char> {
    origin_prefix() + asset_file_name_of(id)
}

/// What parsing a requested file name gives: the id whose file name it is, if any.
pub open spec fn parsed_asset_id(name: Seq<char>) -> Option<u32> {
    if exists|id: u32| asset_file_name_of(id as nat) == name {
        Some(choose|id: u32| asset_file_name_of(id as nat) == name)
    } else {
        None
    }
}

proof fn lemma_digit_char(d: nat)
    requires
        d < 10,
    ensures
        is_digit(digit_char(d)),
        digit_value(digit_char(d)) == d,
        digit_char(d) == '0' <==> d == 0,
{
    if d == 0 {
    } else if d == 1 {
    } else if d == 2 {
    } else if d == 3 {
    } else if d == 4 {
    } else if d == 5 {
    } else if d == 6 {
    } else if d == 7 {
    } else if d == 8 {
    } else {
    }
}

proof fn lemma_digit_of_value(c: char)
    requires
        is_digit(c),
    ensures
        digit_value(c) < 10,
        digit_char(digit_value(c)) == c,
{
    let v = digit_value(c);
    lemma_digit_char(v);
    assert(digit_char(v) as u32 == c as u32);
}

/// `decimal(n)` is canonical, spells `n`, and starts with `0` only for zero.
pub proof fn lemma_decimal_canonical(n: nat)
    ensures
        is_canonical_decimal(decimal(n)),
        digits_value(decimal(n)) == n,
        decimal(n)[0] == '0' <==> n == 0,
    decreases n,
{
    if n < 10 {
        lemma_digit_char(n);
        let d = decimal(n);
        assert(d.drop_last() =~= Seq::<char>::empty());
        assert(digits_value(d) == digits_value(d.drop_last()) * 10 + digit_value(d.last()));
    } else {
        lemma_decimal_canonical(n / 10);
        lemma_digit_char(n % 10);
        let d = decimal(n);
        let p = decimal(n / 10);
        assert(d.drop_last() =~= p);
        assert(d.last() == digit_char(n % 10));
        assert(digits_value(d) == digits_value(p) * 10 + digit_value(d.last()));
        assert(n == (n / 10) * 10 + n % 10);
        assert(d[0] == p[0]);
        assert forall|i: int| 0 <= i < d.len() implies is_digit(#[trigger] d[i]) by {
            if i < p.len() {
                assert(d[i] == p[i]);
            }
        }
    }
}

proof fn lemma_leading_nonzero_positive(d: Seq<char>)
    requires
        is_canonical_decimal(d),
        d[0] != '0',
    ensures
        digits_value(d) >= 1,
    decreases d.len(),
{
    if d.len() == 1 {
        lemma_digit_of_value(d[0]);
        assert(d.drop_last() =~= Seq::<char>::empty());
        assert(digit_value(d[0]) != 0);
    } else {
        let p = d.drop_last();
        assert(p[0] == d[0]);
        assert forall|i: int| 0 <= i < p.len() implies is_digit(#[trigger] p[i]) by {
            assert(p[i] == d[i]);
        }
        lemma_leading_nonzero_positive(p);
    }
}

/// Canonical decimal text is the decimal text of the number it spells.
pub proof fn lemma_canonical_is_decimal(d: Seq<char>)
    requires
        is_canonical_decimal(d),
    ensures
        decimal(digits_value(d)) == d,
    decreases d.len(),
{
    if d.len() == 1 {
        lemma_digit_of_value(d[0]);
        assert(d.drop_last() =~= Seq::<char>::empty());
        assert(digits_value(d) == digits_value(d.drop_last()) * 10 + digit_value(d.last()));
        assert(digits_value(d) == digit_value(d[0]));
        assert(decimal(digits_value(d)) =~= d);
    } else {
        let p = d.drop_last();
        assert(p[0] == d[0]);
        assert forall|i: int| 0 <= i < p.len() implies is_digit(#[trigger] p[i]) by {
            assert(p[i] == d[i]);
        }
        lemma_canonical_is_decimal(p);
        lemma_leading_nonzero_positive(p);
        lemma_digit_of_value(d.last());
        let v = digits_value(d);
        assert(v / 10 == digits_value(p));
        assert(v % 10 == digit_value(d.last()));
        assert(decimal(v) =~= d);
    }
}

/// Two ids never share a cache file name.
pub proof fn lemma_file_name_injective(a: nat, b: nat)
    requires
        asset_file_name_of(a) == asset_file_name_of(b),
    ensures
        a == b,
{
    let da = decimal(a);
    let db = decimal(b);
    assert(asset_file_name_of(a).len() == da.len() + 4);
    assert(da =~= asset_file_name_of(a).subrange(0, da.len() as int));
    assert(db =~= asset_file_name_of(b).subrange(0, db.len() as int));
    lemma_decimal_canonical(a);
    lemma_decimal_canonical(b);
}

pub open spec fn pow10(k: nat) -> nat
    decreases k,
{
    if k == 0 {
        1
    } else {
        10 * pow10((k - 1) as nat)
    }
}

/// The part of a file name before its four-character extension.
pub open spec fn name_stem(name: Seq<char>) -> Seq<char> {
    name.subrange(0, name.len() - 4)
}

/// The shape of a cache file name: at most ten canonical digits that fit in
/// 32 bits, then `.swf`.
pub open spec fn is_asset_file_name(name: Seq<char>) -> bool {
    &&& 5 <= name.len() <= 14
    &&& name.subrange(name.len() - 4, name.len() as int) == asset_extension()
    &&& is_canonical_decimal(name_stem(name))
    &&& digits_value(name_stem(name)) <= u32::MAX
}

proof fn lemma_pow10_bound(i: nat)
    requires
        i <= 10,
    ensures
        pow10(i) <= 10000000000,
    decreases 10 - i,
{
    if i == 10 {
        reveal_with_fuel(pow10, 11);
    } else {
        lemma_pow10_bound(i + 1);
    }
}

proof fn lemma_decimal_len(n: nat, k: nat)
    requires
        k >= 1,
        n < pow10(k),
    ensures
        decimal(n).len() <= k,
    decreases k,
{
    if n >= 10 {
        assert(k >= 2) by {
            if k == 1 {
                reveal_with_fuel(pow10, 2);
            }
        }
        lemma_decimal_len(n / 10, (k - 1) as nat);
    }
}

/// The file name of a 32-bit id has the shape of a cache file name, and its
/// stem is the id's decimal text.
proof fn lemma_name_shape(id: u32)
    ensures
        is_asset_file_name(asset_file_name_of(id as nat)),
        name_stem(asset_file_name_of(id as nat)) == decimal(id as nat),
{
    let n = asset_file_name_of(id as nat);
    let d = decimal(id as nat);
    lemma_decimal_canonical(id as nat);
    reveal_with_fuel(pow10, 11);
    lemma_decimal_len(id as nat, 10);
    assert(name_stem(n) =~= d);
    assert(n.subrange(n.len() - 4, n.len() as int) =~= asset_extension());
}

/// A name without the shape of a cache file name names no asset.
proof fn lemma_no_asset(name: Seq<char>)
    requires
        !is_asset_file_name(name),
    ensures
        parsed_asset_id(name) is None,
{
    if exists|id: u32| asset_file_name_of(id as nat) == name {
        let id = choose|id: u32| asset_file_name_of(id as nat) == name;
        lemma_name_shape(id);
    }
}

/// A name with the shape of a cache file name names the asset its stem spells.
proof fn lemma_asset_of_shape(name: Seq<char>)
    requires
        is_asset_file_name(name),
    ensures
        parsed_asset_id(name) == Some(digits_value(name_stem(name)) as u32),
{
    let v = digits_value(name_stem(name));
    lemma_canonical_is_decimal(name_stem(name));
    assert(asset_file_name_of(v) =~= name);
    assert(asset_file_name_of((v as u32) as nat) == name);
    let id = choose|id: u32| asset_file_name_of(id as nat) == name;
    lemma_file_name_injective(id as nat, v);
}

/// The asset id named by a requested file name `<id>.swf`, where `<id>` is the
/// canonical decimal text of a 32-bit number; `None` for any other name.
pub fn parse_asset_file_name(name: &str) -> (r: Option<u32>)
    ensures
        r == parsed_asset_id(name@),
{
    let len = name.unicode_len();
    if len < 5 || len > 14 {
        proof { lemma_no_asset(name@); }
        return None;
    }
    let stem_len: usize = len - 4;
    let ext_ok = name.get_char(stem_len) == '.' && name.get_char(stem_len + 1) == 's'
        && name.get_char(stem_len + 2) == 'w' && name.get_char(stem_len + 3) == 'f';
    if !ext_ok {
        proof {
            let ext = name@.subrange(name@.len() - 4, name@.len() as int);
            assert(ext[0] == name@[stem_len as int]);
            assert(ext[1] == name@[stem_len + 1]);
            assert(ext[2] == name@[stem_len + 2]);
            assert(ext[3] == name@[stem_len + 3]);
            lemma_no_asset(name@);
        }
        return None;
    }
    let ghost stem = name_stem(name@);
    if stem_len > 1 && name.get_char(0) == '0' {
        proof {
            assert(stem[0] == name@[0]);
            lemma_no_asset(name@);
        }
        return None;
    }
    let mut v: u64 = 0;
    let mut i: usize = 0;
    while i < stem_len
        invariant
            stem_len == len - 4,
            len == name@.len(),
            5 <= len <= 14,
            stem == name_stem(name@),
            i <= stem_len,
            v == digits_value(stem.subrange(0, i as int)),
            v < pow10(i as nat),
            forall|j: int| 0 <= j < i ==> is_digit(#[trigger] stem[j]),
        decreases stem_len - i,
    {
        let c = name.get_char(i);
        assert(c == stem[i as int]);
        if !('0' <= c && c <= '9') {
            proof { lemma_no_asset(name@); }
            return None;
        }
        proof {
            lemma_pow10_bound(i as nat);
            let pre = stem.subrange(0, i as int + 1);
            assert(pre.drop_last() =~= stem.subrange(0, i as int));
            assert(pre.last() == c);
        }
        v = v * 10 + (c as u64 - '0' as u64);
        i = i + 1;
    }
    assert(stem.subrange(0, stem_len as int) =~= stem);
    if v > 0xffff_ffff {
        proof { lemma_no_asset(name@); }
        return None;
    }
    proof {
        assert(name@.subrange(name@.len() - 4, name@.len() as int) =~= asset_extension());
        lemma_asset_of_shape(name@);
    }
    Some(v as u32)
}

fn digit_text(d: u32) -> (r: &'static str)
    requires
        d < 10,
    ensures
        r@ == seq![digit_char(d as nat)],
{
    if d == 0 {
        proof { reveal_strlit("0"); }
        "0"
    } else if d == 1 {
        proof { reveal_strlit("1"); }
        "1"
    } else if d == 2 {
        proof { reveal_strlit("2"); }
        "2"
    } else if d == 3 {
        proof { reveal_strlit("3"); }
        "3"
    } else if d == 4 {
        proof { reveal_strlit("4"); }
        "4"
    } else if d == 5 {
        proof { reveal_strlit("5"); }
        "5"
    } else if d == 6 {
        proof { reveal_strlit("6"); }
        "6"
    } else if d == 7 {
        proof { reveal_strlit("7"); }
        "7"
    } else if d == 8 {
        proof { reveal_strlit("8"); }
        "8"
    } else {
        proof { reveal_strlit("9"); }
        "9"
    }
}

fn append_decimal(out: &mut String, n: u32)
    ensures
        final(out)@ == old(out)@ + decimal(n as nat),
    decreases n,
{
    if n >= 10 {
        append_decimal(out, n / 10);
    }
    out.append(digit_text(n % 10));
    proof {
        if n >= 10 {
            assert(decimal(n as nat) == decimal((n / 10) as nat) + seq![digit_char((n % 10) as nat)]);
        }
    }
}

fn append_extension(out: &mut String)
    ensures
        final(out)@ == old(out)@ + asset_extension(),
{
    proof { reveal_strlit(".swf"); }
    out.append(".swf");
    assert(".swf"@ =~= asset_extension());
}

/// The name of the cache file that holds asset `id`.
pub fn asset_file_name(id: u32) -> (r: String)
    ensures
        r@ == asset_file_name_of(id as nat),
{
    let mut out = String::new();
    append_decimal(&mut out, id);
    append_extension(&mut out);
    assert(out@ =~= asset_file_name_of(id as nat));
    out
}

/// The origin URL from which asset `id` is fetched on a cache miss.
pub fn origin_url(id: u32) -> (r: String)
    ensures
        r@ == origin_url_of(id as nat),
{
    let mut out = String::from_str("https://seer2-pet-resource.yuuinih.com/public/fight/");
    append_decimal(&mut out, id);
    append_extension(&mut out);
    assert(out@ =~= origin_url_of(id as nat));
    out
}

/// Parsing the cache file name of any id gives that id back: a file is always
/// found again under the id it was stored for.
pub proof fn lemma_file_name_round_trip(id: u32)
    ensures
        parsed_asset_id(asset_file_name_of(id as nat)) == Some(id),
{
    lemma_name_shape(id);
    lemma_asset_of_shape(asset_file_name_of(id as nat));
    lemma_decimal_canonical(id as nat);
}

} // verus!
