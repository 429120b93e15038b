//! Picking the newest release among an image registry's tags: only tags
//! written as dotted numbers count, compared part by part as numbers.
use vstd::prelude::*;

verus! {

/// Whether `c` is a numeric character in Unicode's sense.
pub uninterp spec fn numeric_char(c: char) -> bool;

/// Relies on `char::is_numeric`: the answer depends on the character alone,
/// and the ASCII digits are numeric.
#[verifier::external_body]
fn is_numeric(c: char) -> (r: bool)
    ensures
        r == numeric_char(c),
        '0' <= c <= '9' ==> r,
{
    c.is_numeric()
}

/// Bytes that `c` takes in UTF-8.
pub open spec fn utf8_width(c: char) -> nat {
    if (c as u32) < 0x80 {
        1
    } else if (c as u32) < 0x800 {
        2
    } else if (c as u32) < 0x10000 {
        3
    } else {
        4
    }
}

/// Bytes that `s` takes in UTF-8.
pub open spec fn utf8_len(s: Seq<char>) -> nat
    decreases s.len(),
{
    if s.len() == 0 {
        0
    } else {
        utf8_len(s.drop_last()) + utf8_width(s.last())
    }
}

/// Longest tag, in bytes, that can name a release.
pub const MAX_TAG_BYTES: usize = 20;

/// A tag that names a release: not `latest`, at most [`MAX_TAG_BYTES`]
/// bytes, starting with a numeric character, holding a dot, and made of
/// numeric characters and dots only.
pub open spec fn is_release_tag(t: Seq<char>) -> bool {
    &&& t != "latest"@
    &&& utf8_len(t) <= MAX_TAG_BYTES
    &&& t.len() > 0
    &&& numeric_char(t[0])
    &&& t.contains('.')
    &&& forall|i: int| 0 <= i < t.len() ==> numeric_char(#[trigger] t[i]) || t[i] == '.'
}

pub open spec fn is_ascii_digit(c: char) -> bool {
    '0' <= c <= '9'
}

/// The number written by the ASCII digits `s`.
pub open spec fn digits_value(s: Seq<char>) -> nat
    decreases s.len(),
{
    if s.len() == 0 {
        0
    } else {
        digits_value(s.drop_last()) * 10 + ((s.last() as u32) - ('0' as u32)) as nat
    }
}

/// The number a part of a tag stands for: its value when it is a non-empty
/// run of ASCII digits that fits in 64 bits, else 0.
pub open spec fn part_value(s: Seq<char>) -> nat {
    if s.len() > 0 && (forall|i: int| 0 <= i < s.len() ==> is_ascii_digit(#[trigger] s[i]))
        && digits_value(s) <= u64::MAX {
        digits_value(s)
    } else {
        0
    }
}

/// The values of the finished parts of `t` and the text of the part being
/// read, for `t` read from the left and split at each dot.
pub open spec fn split_state(t: Seq<char>) -> (Seq<nat>, Seq<char>)
    decreases t.len(),
{
    if t.len() == 0 {
        (Seq::empty(), Seq::empty())
    } else {
        let (done, cur) = split_state(t.drop_last());
        if t.last() == '.' {
            (done.push(part_value(cur)), Seq::empty())
        } else {
            (done, cur.push(t.last()))
        }
    }
}

/// The value of each dot-separated part of `t`.
pub open spec fn version_parts(t: Seq<char>) -> Seq<nat> {
    split_state(t).0.push(part_value(split_state(t).1))
}

/// Part `i` of `v`, with missing parts read as 0.
pub open spec fn part_at(v: Seq<nat>, i: int) -> nat {
    if 0 <= i < v.len() {
        v[i]
    } else {
        0
    }
}

/// Compares `a` and `b` from part `i` on: -1, 0 or 1.
pub open spec fn compare_from(a: Seq<nat>, b: Seq<nat>, i: int) -> int
    decreases a.len() + b.len() - i,
{
    if i < 0 || (i >= a.len() && i >= b.len()) {
        0
    } else if part_at(a, i) < part_at(b, i) {
        -1
    } else if part_at(a, i) > part_at(b, i) {
        1
    } else {
        compare_from(a, b, i + 1)
    }
}

/// Release `a` is older than release `b`.
pub open spec fn older(a: Seq<char>, b: Seq<char>) -> bool {
    compare_from(version_parts(a), version_parts(b), 0) < 0
}

/// The UTF-8 width of `c`.
fn char_width(c: char) -> (r: usize)
    ensures
        r == utf8_width(c),
{
    let v = c as u32;
    if v < 0x80 {
        1
    } else if v < 0x800 {
        2
    } else if v < 0x10000 {
        3
    } else {
        4
    }
}

/// Whether `tag` names a release.
pub fn is_release(tag: &str) -> (r: bool)
    ensures
        r == is_release_tag(tag@),
{
    let n = tag.unicode_len();
    if n == 0 {
        return false;
    }
    let mut bytes: usize = 0;
    let mut has_dot = false;
    let mut clean = true;
    let mut i: usize = 0;
    while i < n
        invariant
            n == tag@.len(),
            i <= n,
            bytes <= MAX_TAG_BYTES + 4,
            utf8_len(tag@.subrange(0, i as int)) <= MAX_TAG_BYTES ==> bytes == utf8_len(
                tag@.subrange(0, i as int),
            ),
            utf8_len(tag@.subrange(0, i as int)) > MAX_TAG_BYTES ==> bytes > MAX_TAG_BYTES,
            has_dot == exists|k: int| 0 <= k < i && #[trigger] tag@[k] == '.',
            clean == forall|k: int| 0 <= k < i ==> numeric_char(#[trigger] tag@[k]) || tag@[k] == '.',
        decreases n - i,
    {
        let c = tag.get_char(i);
        let w = char_width(c);
        assert(tag@.subrange(0, i + 1).drop_last() =~= tag@.subrange(0, i as int));
        if bytes <= MAX_TAG_BYTES {
            bytes = bytes + w;
        }
        if c == '.' {
            has_dot = true;
        }
        if !is_numeric(c) && c != '.' {
            clean = false;
        }
        i += 1;
    }
    assert(tag@.subrange(0, n as int) =~= tag@);
    proof {
        reveal_strlit("latest");
    }
    let first = tag.get_char(0);
    let not_latest = !(n == 6 && tag.get_char(0) == 'l' && tag.get_char(1) == 'a' && tag.get_char(2) == 't'
        && tag.get_char(3) == 'e' && tag.get_char(4) == 's' && tag.get_char(5) == 't');
    assert(not_latest == (tag@ != "latest"@)) by {
        if tag@ == "latest"@ {
            assert(tag@[0] == 'l');
        }
        if !not_latest {
            assert(tag@ =~= "latest"@);
        }
    }
    not_latest && bytes <= MAX_TAG_BYTES && is_numeric(first) && has_dot && clean
}


/// Parts as numbers.
pub open spec fn as_nats(v: Seq<u64>) -> Seq<nat> {
    v.map_values(|x: u64| x as nat)
}

/// The value of each dot-separated part of `tag`.
pub fn version_parts_of(tag: &str) -> (r: Vec<u64>)
    ensures
        as_nats(r@) == version_parts(tag@),
{
    let n = tag.unicode_len();
    let mut done: Vec<u64> = Vec::new();
    let ghost mut cur: Seq<char> = Seq::empty();
    let mut cur_empty = true;
    let mut digits = true;
    let mut overflow = false;
    let mut acc: u64 = 0;
    let mut i: usize = 0;
    while i < n
        invariant
            n == tag@.len(),
            i <= n,
            split_state(tag@.subrange(0, i as int)).0 == as_nats(done@),
            split_state(tag@.subrange(0, i as int)).1 == cur,
            cur_empty == (cur.len() == 0),
            digits == forall|k: int| 0 <= k < cur.len() ==> is_ascii_digit(#[trigger] cur[k]),
            digits && !overflow ==> acc == digits_value(cur),
            digits && overflow ==> digits_value(cur) > u64::MAX,
        decreases n - i,
    {
        let c = tag.get_char(i);
        assert(tag@.subrange(0, i + 1).drop_last() =~= tag@.subrange(0, i as int));
        if c == '.' {
            let value: u64 = if !cur_empty && digits && !overflow {
                acc
            } else {
                0
            };
            done.push(value);
            assert(as_nats(done@) =~= split_state(tag@.subrange(0, i as int)).0.push(part_value(cur)));
            proof {
                cur = Seq::empty();
            }
            cur_empty = true;
            digits = true;
            overflow = false;
            acc = 0;
        } else {
            let ghost old_cur = cur;
            proof {
                cur = cur.push(c);
                assert(cur.drop_last() =~= old_cur);
            }
            cur_empty = false;
            if '0' <= c && c <= '9' {
                let d = (c as u32 - '0' as u32) as u64;
                if digits && !overflow {
                    if acc > (u64::MAX - d) / 10 {
                        overflow = true;
                        assert(acc * 10 + d > u64::MAX) by (nonlinear_arith)
                            requires
                                acc > (u64::MAX - d) / 10,
                                d <= 9,
                        ;
                    } else {
                        assert(acc * 10 + d <= u64::MAX) by (nonlinear_arith)
                            requires
                                acc <= (u64::MAX - d) / 10,
                                d <= 9,
                        ;
                        acc = acc * 10 + d;
                    }
                } else if digits {
                    assert(digits_value(cur) >= digits_value(old_cur) * 10);
                }
            } else {
                digits = false;
            }
        }
        i += 1;
    }
    assert(tag@.subrange(0, n as int) =~= tag@);
    let value: u64 = if !cur_empty && digits && !overflow {
        acc
    } else {
        0
    };
    done.push(value);
    assert(as_nats(done@) =~= version_parts(tag@));
    done
}

/// Compares two versions part by part, missing parts read as 0: -1, 0 or 1.
pub fn compare_versions(a: &Vec<u64>, b: &Vec<u64>) -> (r: i8)
    ensures
        r as int == compare_from(as_nats(a@), as_nats(b@), 0),
{
    let n = if a.len() > b.len() {
        a.len()
    } else {
        b.len()
    };
    let mut i: usize = 0;
    while i < n
        invariant
            i <= n,
            n == (if a@.len() > b@.len() { a@.len() } else { b@.len() }),
            compare_from(as_nats(a@), as_nats(b@), 0) == compare_from(as_nats(a@), as_nats(b@), i as int),
        decreases n - i,
    {
        let x: u64 = if i < a.len() {
            a[i]
        } else {
            0
        };
        let y: u64 = if i < b.len() {
            b[i]
        } else {
            0
        };
        assert(x as nat == part_at(as_nats(a@), i as int));
        assert(y as nat == part_at(as_nats(b@), i as int));
        if x < y {
            return -1;
        } else if x > y {
            return 1;
        }
        i += 1;
    }
    0
}

proof fn lemma_compare_antisymmetric(a: Seq<nat>, b: Seq<nat>, i: int)
    ensures
        compare_from(a, b, i) == -compare_from(b, a, i),
        -1 <= compare_from(a, b, i) <= 1,
    decreases a.len() + b.len() - i,
{
    if !(i < 0 || (i >= a.len() && i >= b.len())) && part_at(a, i) == part_at(b, i) {
        lemma_compare_antisymmetric(a, b, i + 1);
    }
}

proof fn lemma_compare_transitive(a: Seq<nat>, b: Seq<nat>, c: Seq<nat>, i: int)
    requires
        compare_from(a, b, i) >= 0,
        compare_from(b, c, i) >= 0,
        i >= 0,
    ensures
        compare_from(a, c, i) >= 0,
    decreases a.len() + b.len() + c.len() - i,
{
    if i >= a.len() && i >= b.len() && i >= c.len() {
    } else if part_at(a, i) == part_at(b, i) && part_at(b, i) == part_at(c, i) {
        lemma_compare_transitive(a, b, c, i + 1);
    }
}

/// Whether `older` holds; both must be release tags.
fn is_older(a: &str, b: &str) -> (r: bool)
    ensures
        r == older(a@, b@),
{
    let va = version_parts_of(a);
    let vb = version_parts_of(b);
    compare_versions(&va, &vb) < 0
}

/// The newest release among `tags`: a release tag that no release tag is
/// newer than, the last such in the list. None when no tag names a release.
pub fn latest_version(tags: &Vec<String>) -> (r: Option<String>)
    ensures
        r is None <==> forall|j: int| 0 <= j < tags@.len() ==> !is_release_tag(#[trigger] tags@[j]@),
        r matches Some(t) ==> exists|i: int|
            {
                &&& 0 <= i < tags@.len()
                &&& t@ == (#[trigger] tags@[i])@
                &&& is_release_tag(tags@[i]@)
                &&& forall|j: int|
                    0 <= j < tags@.len() && is_release_tag(#[trigger] tags@[j]@) ==> !older(
                        tags@[i]@,
                        tags@[j]@,
                    )
                &&& forall|j: int|
                    i < j < tags@.len() && is_release_tag(#[trigger] tags@[j]@) ==> older(
                        tags@[j]@,
                        tags@[i]@,
                    )
            },
{
    let mut best: Option<usize> = None;
    let mut i: usize = 0;
    while i < tags.len()
        invariant
            i <= tags@.len(),
            best is None <==> forall|j: int| 0 <= j < i ==> !is_release_tag(#[trigger] tags@[j]@),
            best matches Some(b) ==> {
                &&& b < i
                &&& is_release_tag(tags@[b as int]@)
                &&& forall|j: int|
                    0 <= j < i && is_release_tag(#[trigger] tags@[j]@) ==> !older(
                        tags@[b as int]@,
                        tags@[j]@,
                    )
                &&& forall|j: int|
                    b < j < i && is_release_tag(#[trigger] tags@[j]@) ==> older(
                        tags@[j]@,
                        tags@[b as int]@,
                    )
            },
        decreases tags@.len() - i,
    {
        let t = tags[i].as_str();
        if is_release(t) {
            match best {
                None => {
                    best = Some(i);
                    proof {
                        lemma_compare_antisymmetric(version_parts(t@), version_parts(t@), 0);
                    }
                },
                Some(b) => {
                    if !is_older(t, tags[b].as_str()) {
                        proof {
                            let vt = version_parts(tags@[i as int]@);
                            let vb = version_parts(tags@[b as int]@);
                            lemma_compare_antisymmetric(vt, vt, 0);
                            assert forall|j: int|
                                0 <= j < i + 1 && is_release_tag(#[trigger] tags@[j]@) implies !older(
                                tags@[i as int]@,
                                tags@[j]@,
                            ) by {
                                if j < i {
                                    let vj = version_parts(tags@[j]@);
                                    lemma_compare_transitive(vt, vb, vj, 0);
                                }
                            }
                        }
                        best = Some(i);
                    } else {
                        proof {
                            let vt = version_parts(tags@[i as int]@);
                            let vb = version_parts(tags@[b as int]@);
                            lemma_compare_antisymmetric(vt, vb, 0);
                        }
                    }
                },
            }
        }
        i += 1;
    }
    match best {
        Some(b) => Some(tags[b].clone()),
        None => None,
    }
}

} // verus!
