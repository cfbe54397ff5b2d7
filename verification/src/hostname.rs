//! The grammar of host names: IP literals and dot-separated domain labels.

use vstd::prelude::*;
use crate::text::chars_of;

verus! {

/// Whether `char::is_alphanumeric` holds of `c`: the character is alphabetic
/// or numeric in the sense of the Unicode character database. The grammar
/// asks this of characters beyond ASCII only.
pub uninterp spec fn alphanumeric(c: char) -> bool;

/// Calls `char::is_alphanumeric` of the standard library. The contract only
/// names the answer; nothing is claimed about which characters it accepts.
#[verifier::external_body]
fn char_is_alphanumeric(c: char) -> (r: bool)
    ensures
        r == alphanumeric(c),
{
    c.is_alphanumeric()
}

/// An ASCII letter or an ASCII digit.
pub open spec fn is_ascii_alphanumeric(c: char) -> bool {
    let u: u32 = c as u32;
    (48 <= u <= 57) || (65 <= u <= 90) || (97 <= u <= 122)
}

/// A letter or a digit of any script: within ASCII the letters `A` to `Z`
/// and `a` to `z` and the digits `0` to `9`, beyond ASCII what the Unicode
/// character database calls alphabetic or numeric.
pub open spec fn is_letter_or_digit(c: char) -> bool {
    if c as u32 <= 127 {
        is_ascii_alphanumeric(c)
    } else {
        alphanumeric(c)
    }
}

/// Whether `c` is a letter or a digit of any script.
pub fn letter_or_digit(c: char) -> (r: bool)
    ensures
        r == is_letter_or_digit(c),
{
    let u: u32 = c as u32;
    if u <= 127 {
        (48 <= u && u <= 57) || (65 <= u && u <= 90) || (97 <= u && u <= 122)
    } else {
        char_is_alphanumeric(c)
    }
}

/// The fields of `s` between occurrences of `sep`. A text without `sep` is
/// one field; `n` separators always give `n + 1` fields, empty ones included.
pub open spec fn split(s: Seq<char>, sep: char) -> Seq<Seq<char>>
    decreases s.len(),
{
    if s.len() == 0 {
        seq![Seq::empty()]
    } else {
        let before = split(s.drop_last(), sep);
        if s.last() == sep {
            before.push(Seq::empty())
        } else {
            before.update(before.len() - 1, before.last().push(s.last()))
        }
    }
}

/// The contents of a list of character vectors.
pub open spec fn field_views(fields: Seq<Vec<char>>) -> Seq<Seq<char>> {
    fields.map_values(|f: Vec<char>| f@)
}

pub open spec fn is_label_char(c: char) -> bool {
    is_letter_or_digit(c) || c == '-'
}

/// One label of a domain name: 1 to 63 letters, digits or hyphens, with no
/// hyphen at either end.
pub open spec fn is_label(l: Seq<char>) -> bool {
    &&& 1 <= l.len() <= 63
    &&& forall|i: int| 0 <= i < l.len() ==> is_label_char(#[trigger] l[i])
    &&& l[0] != '-'
    &&& l[l.len() - 1] != '-'
}

pub open spec fn all_labels(fields: Seq<Seq<char>>) -> bool {
    forall|k: int| 0 <= k < fields.len() ==> is_label(#[trigger] fields[k])
}

/// A domain name: at most 253 characters, every dot-separated field a label.
pub open spec fn is_domain_name(h: Seq<char>) -> bool {
    h.len() <= 253 && all_labels(split(h, '.'))
}

pub open spec fn is_digit(c: char) -> bool {
    48 <= c as u32 <= 57
}

pub open spec fn is_hex_digit(c: char) -> bool {
    let u: u32 = c as u32;
    (48 <= u <= 57) || (65 <= u <= 70) || (97 <= u <= 102)
}

pub open spec fn all_digits(f: Seq<char>) -> bool {
    forall|i: int| 0 <= i < f.len() ==> is_digit(#[trigger] f[i])
}

/// The number that a run of decimal digits writes.
pub open spec fn decimal_value(f: Seq<char>) -> nat
    decreases f.len(),
{
    if f.len() == 0 {
        0
    } else {
        decimal_value(f.drop_last()) * 10 + (f.last() as u32 - 48) as nat
    }
}

/// One part of a dotted quad: 1 to 3 digits, at most 255, written without a
/// leading zero unless it is the single digit 0.
pub open spec fn is_octet(f: Seq<char>) -> bool {
    &&& 1 <= f.len() <= 3
    &&& all_digits(f)
    &&& (f.len() > 1 ==> f[0] != '0')
    &&& decimal_value(f) <= 255
}

pub open spec fn all_octets(fields: Seq<Seq<char>>) -> bool {
    forall|k: int| 0 <= k < fields.len() ==> is_octet(#[trigger] fields[k])
}

/// An IPv4 literal: four octets separated by dots.
pub open spec fn is_ipv4(s: Seq<char>) -> bool {
    split(s, '.').len() == 4 && all_octets(split(s, '.'))
}

/// One 16-bit group of an IPv6 literal: 1 to 4 hexadecimal digits.
pub open spec fn is_group(f: Seq<char>) -> bool {
    &&& 1 <= f.len() <= 4
    &&& forall|i: int| 0 <= i < f.len() ==> is_hex_digit(#[trigger] f[i])
}

pub open spec fn all_groups(fields: Seq<Seq<char>>) -> bool {
    forall|k: int| 0 <= k < fields.len() ==> is_group(#[trigger] fields[k])
}

/// How many 16-bit units a run of colon-separated fields stands for, when the
/// run is well formed: every field is a group and counts one, except that the
/// last field may be a dotted quad, which counts two.
pub open spec fn units(fields: Seq<Seq<char>>) -> Option<nat> {
    if all_groups(fields) {
        Some(fields.len())
    } else if fields.len() > 0 && all_groups(fields.drop_last()) && is_ipv4(fields.last()) {
        Some(fields.len() + 1)
    } else {
        None
    }
}

/// What may follow the `::` of a compressed literal after `used` leading
/// groups: nothing at all, or a well-formed run that keeps the whole
/// literal at 7 units or fewer.
pub open spec fn tail_fits(tail: Seq<Seq<char>>, used: int) -> bool {
    &&& tail.len() >= 1
    &&& used <= 7
    &&& (tail.len() == 1 && tail[0].len() == 0) || (units(tail) matches Some(u) && used + u <= 7)
}

/// The `::` of a compressed literal starts at the empty field `k`: the fields
/// before it are groups, and what follows fits.
pub open spec fn gap_at(fields: Seq<Seq<char>>, k: int) -> bool {
    &&& 0 <= k < fields.len()
    &&& fields[k].len() == 0
    &&& all_groups(fields.take(k))
    &&& if k == 0 {
        fields.len() >= 2 && fields[1].len() == 0 && tail_fits(fields.skip(2), 0)
    } else {
        tail_fits(fields.skip(k + 1), k)
    }
}

/// An IPv6 literal: eight units in full, or fewer around one `::`.
pub open spec fn is_ipv6(s: Seq<char>) -> bool {
    let fields = split(s, ':');
    units(fields) == Some(8nat) || exists|k: int| #[trigger] gap_at(fields, k)
}

pub open spec fn is_ip_literal(s: Seq<char>) -> bool {
    is_ipv4(s) || is_ipv6(s)
}

/// A host name that is accepted: an IP literal or a domain name.
pub open spec fn is_valid_hostname(h: Seq<char>) -> bool {
    is_ip_literal(h) || is_domain_name(h)
}

/// A text always has at least one field.
pub proof fn lemma_split_nonempty(s: Seq<char>, sep: char)
    ensures
        split(s, sep).len() >= 1,
    decreases s.len(),
{
    if s.len() > 0 {
        lemma_split_nonempty(s.drop_last(), sep);
    }
}

/// A text without the separator is its own single field.
pub proof fn lemma_split_without_separator(s: Seq<char>, sep: char)
    requires
        forall|i: int| 0 <= i < s.len() ==> s[i] != sep,
    ensures
        split(s, sep) == seq![s],
    decreases s.len(),
{
    if s.len() == 0 {
        assert(s =~= Seq::<char>::empty());
    } else {
        let shorter = s.drop_last();
        assert forall|i: int| 0 <= i < shorter.len() implies shorter[i] != sep by {
            assert(shorter[i] == s[i]);
        }
        lemma_split_without_separator(shorter, sep);
        assert(s[s.len() - 1] != sep);
        assert(shorter.push(s.last()) =~= s);
        assert(seq![shorter].update(0, shorter.push(s.last())) =~= seq![s]);
    }
}

/// The fields of two texts joined by the separator are the fields of the
/// first followed by the fields of the second.
pub proof fn lemma_split_joined(a: Seq<char>, b: Seq<char>, sep: char)
    ensures
        split(a.push(sep) + b, sep) == split(a, sep) + split(b, sep),
    decreases b.len(),
{
    let whole = a.push(sep) + b;
    if b.len() == 0 {
        assert(whole =~= a.push(sep));
        assert(whole.drop_last() =~= a);
        assert(split(whole, sep) =~= split(a, sep) + split(b, sep));
    } else {
        let shorter = b.drop_last();
        lemma_split_joined(a, shorter, sep);
        lemma_split_nonempty(shorter, sep);
        assert(whole.drop_last() =~= a.push(sep) + shorter);
        assert(whole.last() == b.last());
        assert(split(whole, sep) =~= split(a, sep) + split(b, sep));
    }
}

/// Splits `s` at every `sep`.
pub fn split_fields(s: &Vec<char>, sep: char) -> (r: Vec<Vec<char>>)
    ensures
        field_views(r@) == split(s@, sep),
{
    let mut done: Vec<Vec<char>> = Vec::new();
    let mut current: Vec<char> = Vec::new();
    let n: usize = s.len();
    let mut i: usize = 0;
    assert(s@.subrange(0, 0) =~= Seq::<char>::empty());
    assert(field_views(done@).push(current@) =~= seq![Seq::<char>::empty()]);
    while i < n
        invariant
            n == s@.len(),
            i <= n,
            field_views(done@).push(current@) == split(s@.subrange(0, i as int), sep),
        decreases n - i,
    {
        let c = s[i];
        let ghost prefix = s@.subrange(0, i as int);
        let ghost next = s@.subrange(0, i + 1);
        let ghost before = field_views(done@).push(current@);
        proof {
            assert(next.drop_last() =~= prefix);
            assert(next.last() == c);
        }
        if c == sep {
            done.push(current);
            current = Vec::new();
            assert(field_views(done@).push(current@) =~= before.push(Seq::empty()));
        } else {
            current.push(c);
            assert(field_views(done@).push(current@) =~= before.update(
                before.len() - 1,
                before.last().push(c),
            ));
        }
        i = i + 1;
    }
    assert(s@.subrange(0, n as int) =~= s@);
    let ghost before = field_views(done@).push(current@);
    done.push(current);
    assert(field_views(done@) =~= before);
    done
}

fn check_label(l: &Vec<char>) -> (r: bool)
    ensures
        r == is_label(l@),
{
    let n: usize = l.len();
    if n == 0 || n > 63 {
        return false;
    }
    if l[0] == '-' || l[n - 1] == '-' {
        return false;
    }
    let mut i: usize = 0;
    while i < n
        invariant
            n == l@.len(),
            i <= n,
            forall|j: int| 0 <= j < i ==> is_label_char(#[trigger] l@[j]),
        decreases n - i,
    {
        let c = l[i];
        if !(c == '-' || letter_or_digit(c)) {
            return false;
        }
        i = i + 1;
    }
    true
}

fn check_domain_name(h: &Vec<char>) -> (r: bool)
    ensures
        r == is_domain_name(h@),
{
    if h.len() > 253 {
        return false;
    }
    let labels = split_fields(h, '.');
    let n: usize = labels.len();
    let mut k: usize = 0;
    while k < n
        invariant
            n == labels@.len(),
            k <= n,
            field_views(labels@) == split(h@, '.'),
            forall|j: int| 0 <= j < k ==> is_label(#[trigger] split(h@, '.')[j]),
        decreases n - k,
    {
        assert(field_views(labels@)[k as int] == labels@[k as int]@);
        if !check_label(&labels[k]) {
            return false;
        }
        k = k + 1;
    }
    true
}

fn check_octet(f: &Vec<char>) -> (r: bool)
    ensures
        r == is_octet(f@),
{
    let n: usize = f.len();
    if n == 0 || n > 3 {
        return false;
    }
    if n > 1 && f[0] == '0' {
        return false;
    }
    let mut value: u32 = 0;
    let mut i: usize = 0;
    assert(f@.subrange(0, 0) =~= Seq::<char>::empty());
    while i < n
        invariant
            n == f@.len(),
            n <= 3,
            i <= n,
            forall|j: int| 0 <= j < i ==> is_digit(#[trigger] f@[j]),
            value == decimal_value(f@.subrange(0, i as int)),
            value <= 999,
            i == 0 ==> value == 0,
            i == 1 ==> value <= 9,
            i == 2 ==> value <= 99,
        decreases n - i,
    {
        let u: u32 = f[i] as u32;
        if u < 48 || u > 57 {
            return false;
        }
        proof {
            assert(f@.subrange(0, i + 1).drop_last() =~= f@.subrange(0, i as int));
        }
        value = value * 10 + (u - 48);
        i = i + 1;
    }
    assert(f@.subrange(0, n as int) =~= f@);
    value <= 255
}

fn check_ipv4(s: &Vec<char>) -> (r: bool)
    ensures
        r == is_ipv4(s@),
{
    let parts = split_fields(s, '.');
    if parts.len() != 4 {
        return false;
    }
    let mut k: usize = 0;
    while k < 4
        invariant
            parts@.len() == 4,
            k <= 4,
            field_views(parts@) == split(s@, '.'),
            forall|j: int| 0 <= j < k ==> is_octet(#[trigger] split(s@, '.')[j]),
        decreases 4 - k,
    {
        assert(field_views(parts@)[k as int] == parts@[k as int]@);
        if !check_octet(&parts[k]) {
            return false;
        }
        k = k + 1;
    }
    true
}

fn check_group(f: &Vec<char>) -> (r: bool)
    ensures
        r == is_group(f@),
{
    let n: usize = f.len();
    if n == 0 || n > 4 {
        return false;
    }
    let mut i: usize = 0;
    while i < n
        invariant
            n == f@.len(),
            i <= n,
            forall|j: int| 0 <= j < i ==> is_hex_digit(#[trigger] f@[j]),
        decreases n - i,
    {
        let u: u32 = f[i] as u32;
        if !((48 <= u && u <= 57) || (65 <= u && u <= 70) || (97 <= u && u <= 102)) {
            return false;
        }
        i = i + 1;
    }
    true
}

/// Whether the fields from `from` up to `to` are all groups.
fn check_groups(fields: &Vec<Vec<char>>, from: usize, to: usize) -> (r: bool)
    requires
        from <= to <= fields@.len(),
    ensures
        r == all_groups(field_views(fields@).subrange(from as int, to as int)),
{
    let ghost run = field_views(fields@).subrange(from as int, to as int);
    let mut k: usize = from;
    while k < to
        invariant
            from <= k <= to,
            to <= fields@.len(),
            run == field_views(fields@).subrange(from as int, to as int),
            forall|j: int| 0 <= j < k - from ==> is_group(#[trigger] run[j]),
        decreases to - k,
    {
        assert(run[k - from] == fields@[k as int]@);
        if !check_group(&fields[k]) {
            return false;
        }
        k = k + 1;
    }
    true
}

/// Whether the fields from `from` to the end are a well-formed run that
/// stands for at least `low` and at most `high` units.
fn units_within(fields: &Vec<Vec<char>>, from: usize, low: usize, high: usize) -> (r: bool)
    requires
        from <= fields@.len(),
    ensures
        r == (units(field_views(fields@).skip(from as int)) matches Some(u) && low <= u <= high),
{
    let n: usize = fields.len();
    let count: usize = n - from;
    let ghost run = field_views(fields@).skip(from as int);
    assert(run =~= field_views(fields@).subrange(from as int, n as int));
    if check_groups(fields, from, n) {
        return low <= count && count <= high;
    }
    if n == from {
        return false;
    }
    assert(run.drop_last() =~= field_views(fields@).subrange(from as int, n - 1));
    assert(run.last() == fields@[n - 1]@);
    if check_groups(fields, from, n - 1) && check_ipv4(&fields[n - 1]) {
        (low == 0 || low - 1 <= count) && count < high
    } else {
        false
    }
}

/// Whether what follows the `::` fits, the tail starting at field `from`.
fn check_tail(fields: &Vec<Vec<char>>, from: usize, used: usize) -> (r: bool)
    requires
        from <= fields@.len(),
    ensures
        r == tail_fits(field_views(fields@).skip(from as int), used as int),
{
    let n: usize = fields.len();
    if from == n || used > 7 {
        return false;
    }
    let ghost tail = field_views(fields@).skip(from as int);
    assert(tail[0] == fields@[from as int]@);
    if n - from == 1 && fields[from].len() == 0 {
        return true;
    }
    units_within(fields, from, 0, 7 - used)
}

fn check_ipv6(s: &Vec<char>) -> (r: bool)
    ensures
        r == is_ipv6(s@),
{
    let fields = split_fields(s, ':');
    let ghost views = field_views(fields@);
    assert(views.skip(0) =~= views);
    if units_within(&fields, 0, 8, 8) {
        return true;
    }
    let n: usize = fields.len();
    let mut k: usize = 0;
    while k < n && fields[k].len() != 0
        invariant
            n == fields@.len(),
            k <= n,
            views == field_views(fields@),
            forall|j: int| 0 <= j < k ==> (#[trigger] views[j]).len() != 0,
        decreases n - k,
    {
        k = k + 1;
    }
    if k == n {
        assert forall|g: int| !#[trigger] gap_at(views, g) by {
            if 0 <= g < views.len() {
                assert(views[g].len() != 0);
            }
        }
        return false;
    }
    assert(views[k as int].len() == 0);
    assert(views.take(k as int) =~= views.subrange(0, k as int));
    let found = check_groups(&fields, 0, k) && if k == 0 {
        n >= 2 && fields[1].len() == 0 && check_tail(&fields, 2, 0)
    } else {
        check_tail(&fields, k + 1, k)
    };
    proof {
        assert(found == gap_at(views, k as int));
        assert forall|g: int| g != k implies !#[trigger] gap_at(views, g) by {
            if 0 <= g < k {
                assert(views[g].len() != 0);
            } else if k < g < views.len() {
                if all_groups(views.take(g)) {
                    assert(views.take(g)[k as int] == views[k as int]);
                    assert(is_group(views.take(g)[k as int]));
                }
            }
        }
    }
    found
}

/// Whether `hostname` is an IP literal or a domain name.
pub fn hostname_is_valid(hostname: &str) -> (r: bool)
    ensures
        r == is_valid_hostname(hostname@),
{
    let chars = chars_of(hostname);
    check_ipv4(&chars) || check_ipv6(&chars) || check_domain_name(&chars)
}

} // verus!
