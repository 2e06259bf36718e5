//! Boot entries: the inventory tool's output parsed into entries and a
//! boot order, and the entries arranged by that order.
//!
//! The inventory tool prints one line per entry, shaped
//! `Boot<4 hex digits><optional *><whitespace><name up to a tab or '('>`,
//! and one `BootOrder:` line with comma-separated identifiers.

use vstd::prelude::*;

use crate::text::{
    chars_have_prefix, clone_chars, copy_range, has_prefix, hex4, hex_token_val, hex_value,
    is_hex_digit, is_space, parse_hex_token, scan_space, skip_spaces, space, trim_chars, trim_spec,
};

verus! {

/// One bootable target: a four-hex-digit identifier and a display name.
#[derive(Debug)]
pub struct BootEntry {
    /// The identifier, the value of the four hexadecimal digits.
    pub id: u16,
    /// The display name; never inspected, only shown.
    pub name: Vec<char>,
}

/// Spec-level value of a [`BootEntry`].
#[verifier::ext_equal]
pub struct EntryV {
    pub id: u16,
    pub name: Seq<char>,
}

impl View for BootEntry {
    type V = EntryV;

    open spec fn view(&self) -> EntryV {
        EntryV { id: self.id, name: self.name@ }
    }
}

impl BootEntry {
    /// An equal copy of the entry.
    pub fn duplicate(&self) -> (r: BootEntry)
        ensures
            r@ == self@,
    {
        BootEntry { id: self.id, name: clone_chars(&self.name) }
    }
}

/// The values of a sequence of entries.
pub open spec fn views_of(es: Seq<BootEntry>) -> Seq<EntryV> {
    es.map_values(|e: BootEntry| e@)
}

/// The identifiers of a sequence of entries, in order.
pub open spec fn ids_of(es: Seq<EntryV>) -> Seq<u16> {
    es.map_values(|e: EntryV| e.id)
}

/// The identifiers of the entries, in their current order.
pub fn entry_ids(es: &Vec<BootEntry>) -> (r: Vec<u16>)
    ensures
        r@ == ids_of(views_of(es@)),
{
    let n: usize = es.len();
    let mut r: Vec<u16> = Vec::new();
    let mut i: usize = 0;
    while i < n
        invariant
            0 <= i <= n == es@.len(),
            r@.len() == i,
            forall|k: int| 0 <= k < i ==> r@[k] == es@[k]@.id,
        decreases n - i,
    {
        r.push(es[i].id);
        i = i + 1;
    }
    proof {
        assert(r@ =~= ids_of(views_of(es@)));
    }
    r
}

/// The first position (or `order.len()` if absent) of `id` in `order`.
pub open spec fn pos_in(order: Seq<u16>, id: u16) -> int
    decreases order.len(),
{
    if order.len() == 0 {
        0
    } else if order[0] == id {
        0
    } else {
        1 + pos_in(order.drop_first(), id)
    }
}

pub proof fn lemma_pos_in(order: Seq<u16>, id: u16)
    ensures
        0 <= pos_in(order, id) <= order.len(),
        pos_in(order, id) < order.len() ==> order[pos_in(order, id)] == id,
        forall|k: int| 0 <= k < pos_in(order, id) ==> order[k] != id,
    decreases order.len(),
{
    if order.len() > 0 && order[0] != id {
        lemma_pos_in(order.drop_first(), id);
        assert(forall|k: int|
            1 <= k < pos_in(order, id) ==> order[k] == order.drop_first()[k - 1]);
    }
}

/// The first position of `id` in `order`, or `order.len()` if absent.
pub fn position_of(order: &Vec<u16>, id: u16) -> (r: usize)
    ensures
        r as int == pos_in(order@, id),
{
    let n: usize = order.len();
    let mut i: usize = 0;
    while i < n && order[i] != id
        invariant
            0 <= i <= n == order@.len(),
            forall|k: int| 0 <= k < i ==> order@[k] != id,
        decreases n - i,
    {
        i = i + 1;
    }
    proof {
        lemma_pos_in(order@, id);
        let p = pos_in(order@, id);
        if i < n {
            // found at i: the first occurrence is neither before nor after i
            assert(order@[i as int] == id);
            if p < i {
                assert(order@[p] != id);
            }
            if p > i {
                assert(order@[i as int] != id);
            }
        } else {
            // not found: the first occurrence cannot be a real position
            if p < n {
                assert(order@[p] != id);
            }
        }
    }
    i
}

/// The entries of `es` whose identifier first occurs at position `k` of
/// `order`, kept in their own relative order.
pub open spec fn bucket(es: Seq<EntryV>, order: Seq<u16>, k: int) -> Seq<EntryV>
    decreases es.len(),
{
    if es.len() == 0 {
        Seq::empty()
    } else {
        bucket(es.drop_last(), order, k) + (if pos_in(order, es.last().id) == k {
            seq![es.last()]
        } else {
            Seq::empty()
        })
    }
}

/// The entries whose identifier does not occur in `order`, in their own
/// relative order.
pub open spec fn stray(es: Seq<EntryV>, order: Seq<u16>) -> Seq<EntryV> {
    bucket(es, order, order.len() as int)
}

/// The buckets for positions `k, k+1, ...` of `order`, then the strays.
pub open spec fn bucket_concat(es: Seq<EntryV>, order: Seq<u16>, k: int) -> Seq<EntryV>
    decreases order.len() + 1 - k when 0 <= k <= order.len()
{
    if k >= order.len() {
        stray(es, order)
    } else {
        bucket(es, order, k) + bucket_concat(es, order, k + 1)
    }
}

/// The entries sorted stably by the first position of their identifier in
/// the fetched order; entries absent from the order come last.
pub open spec fn arrange_spec(es: Seq<EntryV>, order: Seq<u16>) -> Seq<EntryV> {
    bucket_concat(es, order, 0)
}

/// Arrange the fetched entries by the fetched boot order: an entry whose
/// identifier appears in the order is placed by that position, entries
/// absent from the order come after all ordered ones, and entries with an
/// equal position keep their relative order.
pub fn arrange_entries(es: &Vec<BootEntry>, order: &Vec<u16>) -> (r: Vec<BootEntry>)
    ensures
        views_of(r@) == arrange_spec(views_of(es@), order@),
{
    let n: usize = es.len();
    let m: usize = order.len();
    let mut r: Vec<BootEntry> = Vec::new();
    let mut k: usize = 0;
    while k < m
        invariant
            0 <= k <= m == order@.len(),
            n == es@.len(),
            arrange_spec(views_of(es@), order@) =~= views_of(r@) + bucket_concat(
                views_of(es@),
                order@,
                k as int,
            ),
        decreases m - k,
    {
        let mut i: usize = 0;
        let ghost r_before = views_of(r@);
        while i < n
            invariant
                0 <= i <= n == es@.len(),
                k < m == order@.len(),
                views_of(r@) =~= r_before + bucket(
                    views_of(es@).subrange(0, i as int),
                    order@,
                    k as int,
                ),
            decreases n - i,
        {
            let p = position_of(order, es[i].id);
            let ghost prev = views_of(r@);
            if p == k {
                let d = es[i].duplicate();
                r.push(d);
                proof {
                    assert(views_of(r@) =~= prev.push(es@[i as int]@));
                }
            }
            proof {
                let pre = views_of(es@).subrange(0, i as int);
                let cur = views_of(es@).subrange(0, i as int + 1);
                assert(cur.drop_last() =~= pre);
                assert(cur.last() == es@[i as int]@);
                assert(views_of(r@) =~= r_before + bucket(cur, order@, k as int));
            }
            i = i + 1;
        }
        proof {
            assert(views_of(es@).subrange(0, n as int) =~= views_of(es@));
            assert(arrange_spec(views_of(es@), order@) =~= views_of(r@) + bucket_concat(
                views_of(es@),
                order@,
                k as int + 1,
            ));
        }
        k = k + 1;
    }
    let mut i: usize = 0;
    let ghost r_before = views_of(r@);
    while i < n
        invariant
            0 <= i <= n == es@.len(),
            m == order@.len(),
            views_of(r@) =~= r_before + bucket(
                views_of(es@).subrange(0, i as int),
                order@,
                m as int,
            ),
        decreases n - i,
    {
        let p = position_of(order, es[i].id);
        let ghost prev = views_of(r@);
        if p == m {
            let d = es[i].duplicate();
            r.push(d);
            proof {
                assert(views_of(r@) =~= prev.push(es@[i as int]@));
            }
        }
        proof {
            let pre = views_of(es@).subrange(0, i as int);
            let cur = views_of(es@).subrange(0, i as int + 1);
            assert(cur.drop_last() =~= pre);
            assert(cur.last() == es@[i as int]@);
            assert(views_of(r@) =~= r_before + bucket(cur, order@, m as int));
        }
        i = i + 1;
    }
    proof {
        assert(views_of(es@).subrange(0, n as int) =~= views_of(es@));
        assert(views_of(r@) =~= arrange_spec(views_of(es@), order@));
    }
    r
}

/// Equality of two identifier sequences, by contents.
pub fn ids_eq(a: &Vec<u16>, b: &Vec<u16>) -> (r: bool)
    ensures
        r == (a@ == b@),
{
    if a.len() != b.len() {
        return false;
    }
    let n: usize = a.len();
    let mut i: usize = 0;
    while i < n
        invariant
            0 <= i <= n,
            n == a@.len() == b@.len(),
            forall|k: int| 0 <= k < i ==> a@[k] == b@[k],
        decreases n - i,
    {
        if a[i] != b[i] {
            proof {
                assert(a@[i as int] != b@[i as int]);
            }
            return false;
        }
        i = i + 1;
    }
    proof {
        assert(a@ =~= b@);
    }
    true
}

/// The identifiers joined with commas, each rendered as four upper-case
/// hexadecimal digits.
pub open spec fn join_ids(ids: Seq<u16>) -> Seq<char>
    decreases ids.len(),
{
    if ids.len() == 0 {
        Seq::empty()
    } else if ids.len() == 1 {
        hex4(ids[0])
    } else {
        join_ids(ids.drop_last()) + seq![','] + hex4(ids.last())
    }
}

/// Render the identifiers as a comma-joined list of four-digit
/// hexadecimal numbers.
pub fn join_ids_chars(ids: &Vec<u16>) -> (r: Vec<char>)
    ensures
        r@ == join_ids(ids@),
{
    let n: usize = ids.len();
    let mut r: Vec<char> = Vec::new();
    let mut i: usize = 0;
    while i < n
        invariant
            0 <= i <= n == ids@.len(),
            r@ == join_ids(ids@.subrange(0, i as int)),
        decreases n - i,
    {
        if i > 0 {
            r.push(',');
        }
        let mut h = crate::text::hex4_chars(ids[i]);
        r.append(&mut h);
        proof {
            let pre = ids@.subrange(0, i as int);
            let cur = ids@.subrange(0, i as int + 1);
            assert(cur.drop_last() =~= pre);
            assert(cur.last() == ids@[i as int]);
            if i == 0 {
                assert(r@ =~= join_ids(cur));
            } else {
                assert(r@ =~= join_ids(cur));
            }
        }
        i = i + 1;
    }
    proof {
        assert(ids@.subrange(0, n as int) =~= ids@);
    }
    r
}

/// First newline at or after `i`, or the end of the text.
pub open spec fn line_end(s: Seq<char>, i: int) -> int
    decreases s.len() - i when 0 <= i <= s.len()
{
    if i >= s.len() {
        i
    } else if s[i] == '\n' {
        i
    } else {
        line_end(s, i + 1)
    }
}

pub proof fn lemma_line_end(s: Seq<char>, i: int)
    requires
        0 <= i <= s.len(),
    ensures
        i <= line_end(s, i) <= s.len(),
    decreases s.len() - i,
{
    if i < s.len() && s[i] != '\n' {
        lemma_line_end(s, i + 1);
    }
}

/// First newline at or after `i`.
pub fn find_newline(s: &Vec<char>, i: usize) -> (r: usize)
    requires
        i <= s@.len(),
    ensures
        r as int == line_end(s@, i as int),
        i <= r <= s@.len(),
{
    let n: usize = s.len();
    let mut a: usize = i;
    while a < n && s[a] != '\n'
        invariant
            i <= a <= n == s@.len(),
            line_end(s@, i as int) == line_end(s@, a as int),
        decreases n - a,
    {
        a = a + 1;
    }
    a
}

/// First comma at or after `i`, or the end of the text.
pub open spec fn comma_end(s: Seq<char>, i: int) -> int
    decreases s.len() - i when 0 <= i <= s.len()
{
    if i >= s.len() {
        i
    } else if s[i] == ',' {
        i
    } else {
        comma_end(s, i + 1)
    }
}

pub proof fn lemma_comma_end(s: Seq<char>, i: int)
    requires
        0 <= i <= s.len(),
    ensures
        i <= comma_end(s, i) <= s.len(),
    decreases s.len() - i,
{
    if i < s.len() && s[i] != ',' {
        lemma_comma_end(s, i + 1);
    }
}

/// First comma at or after `i`.
pub fn find_comma(s: &Vec<char>, i: usize) -> (r: usize)
    requires
        i <= s@.len(),
    ensures
        r as int == comma_end(s@, i as int),
        i <= r <= s@.len(),
{
    let n: usize = s.len();
    let mut a: usize = i;
    while a < n && s[a] != ','
        invariant
            i <= a <= n == s@.len(),
            comma_end(s@, i as int) == comma_end(s@, a as int),
        decreases n - a,
    {
        a = a + 1;
    }
    a
}

/// Where a display name stops: the first tab or opening parenthesis at or
/// after `i`, or the end of the line.
pub open spec fn name_stop(s: Seq<char>, i: int) -> int
    decreases s.len() - i when 0 <= i <= s.len()
{
    if i >= s.len() {
        i
    } else if s[i] == '\t' || s[i] == '(' {
        i
    } else {
        name_stop(s, i + 1)
    }
}

/// Where a display name stops.
pub fn find_name_stop(s: &Vec<char>, i: usize) -> (r: usize)
    requires
        i <= s@.len(),
    ensures
        r as int == name_stop(s@, i as int),
        i <= r <= s@.len(),
{
    let n: usize = s.len();
    let mut a: usize = i;
    while a < n && s[a] != '\t' && s[a] != '('
        invariant
            i <= a <= n == s@.len(),
            name_stop(s@, i as int) == name_stop(s@, a as int),
        decreases n - a,
    {
        a = a + 1;
    }
    a
}

/// An entry-line match starting exactly at position `i`: the word `Boot`,
/// four hexadecimal digits, an optional star, at least one whitespace
/// character, then a name running to the first tab or opening parenthesis,
/// trimmed of surrounding whitespace.
pub open spec fn entry_at(line: Seq<char>, i: int) -> Option<EntryV>
    recommends
        0 <= i <= line.len(),
{
    if i + 8 > line.len() {
        None
    } else if !(line[i] == 'B' && line[i + 1] == 'o' && line[i + 2] == 'o' && line[i + 3] == 't') {
        None
    } else if !(is_hex_digit(line[i + 4]) && is_hex_digit(line[i + 5]) && is_hex_digit(line[i + 6])
        && is_hex_digit(line[i + 7])) {
        None
    } else {
        let id = hex_value(line.subrange(i + 4, i + 8)) as u16;
        let j = if i + 8 < line.len() && line[i + 8] == '*' {
            i + 9
        } else {
            i + 8
        };
        if j >= line.len() || !is_space(line[j]) {
            None
        } else {
            let n0 = scan_space(line, j);
            if n0 >= line.len() || line[n0] == '(' {
                None
            } else {
                Some(
                    EntryV {
                        id,
                        name: trim_spec(line.subrange(n0, name_stop(line, n0))),
                    },
                )
            }
        }
    }
}

/// The leftmost entry-line match at or after position `i`.
pub open spec fn entry_from(line: Seq<char>, i: int) -> Option<EntryV>
    decreases line.len() - i when 0 <= i <= line.len()
{
    if i >= line.len() {
        None
    } else if entry_at(line, i) is Some {
        entry_at(line, i)
    } else {
        entry_from(line, i + 1)
    }
}

/// Try to match an entry at exactly position `i` of the line.
fn try_entry_at(line: &Vec<char>, i: usize) -> (r: Option<BootEntry>)
    requires
        i <= line@.len(),
    ensures
        match r {
            Some(b) => entry_at(line@, i as int) == Some(b@),
            None => entry_at(line@, i as int) is None,
        },
{
    let n: usize = line.len();
    if n - i < 8 {
        return None;
    }
    if !(line[i] == 'B' && line[i + 1] == 'o' && line[i + 2] == 'o' && line[i + 3] == 't') {
        return None;
    }
    let digits = copy_range(line, i + 4, i + 8);
    let parsed = parse_hex_token(&digits);
    if parsed.is_none() {
        proof {
            let sub = line@.subrange(i as int + 4, i as int + 8);
            assert(is_hex_digit(line@[i as int + 4]) ==> line@[i as int + 4] == sub[0]);
            assert(entry_at(line@, i as int) is None);
        }
        return None;
    }
    let id = parsed.unwrap();
    proof {
        let sub = line@.subrange(i as int + 4, i as int + 8);
        assert(sub[0] == line@[i as int + 4]);
        assert(sub[1] == line@[i as int + 5]);
        assert(sub[2] == line@[i as int + 6]);
        assert(sub[3] == line@[i as int + 7]);
    }
    let j: usize = if i + 8 < n && line[i + 8] == '*' {
        i + 9
    } else {
        i + 8
    };
    if j >= n || !space(line[j]) {
        return None;
    }
    let n0 = skip_spaces(line, j);
    if n0 == n {
        return None;
    }
    if line[n0] == '(' {
        return None;
    }
    let ne = find_name_stop(line, n0);
    let raw = copy_range(line, n0, ne);
    let name = trim_chars(&raw);
    Some(BootEntry { id, name })
}

/// The leftmost entry match in one line of the inventory tool's output.
pub fn parse_line_entry(line: &Vec<char>) -> (r: Option<BootEntry>)
    ensures
        match r {
            Some(b) => entry_from(line@, 0) == Some(b@),
            None => entry_from(line@, 0) is None,
        },
{
    let n: usize = line.len();
    let mut i: usize = 0;
    while i < n
        invariant
            0 <= i <= n == line@.len(),
            entry_from(line@, 0) == entry_from(line@, i as int),
        decreases n - i,
    {
        let hit = try_entry_at(line, i);
        if hit.is_some() {
            return hit;
        }
        i = i + 1;
    }
    None
}

/// The entries found on the lines of `t` from position `start` on.
pub open spec fn entries_from(t: Seq<char>, start: int) -> Seq<EntryV>
    decreases t.len() - start when 0 <= start <= t.len() via entries_from_dec
{
    let e = line_end(t, start);
    let this = match entry_from(t.subrange(start, e), 0) {
        Some(x) => seq![x],
        None => Seq::empty(),
    };
    if e >= t.len() {
        this
    } else {
        this + entries_from(t, e + 1)
    }
}

#[via_fn]
proof fn entries_from_dec(t: Seq<char>, start: int) {
    lemma_line_end(t, start);
}

/// Parse the inventory tool's output into its boot entries, in the order
/// printed: each line is scanned for an entry-shaped match.
pub fn parse_boot_entries(text: &Vec<char>) -> (r: Vec<BootEntry>)
    ensures
        views_of(r@) == entries_from(text@, 0),
{
    let n: usize = text.len();
    let mut out: Vec<BootEntry> = Vec::new();
    let mut start: usize = 0;
    let mut done: bool = false;
    while !done
        invariant
            0 <= start <= n == text@.len(),
            !done ==> entries_from(text@, 0) =~= views_of(out@) + entries_from(
                text@,
                start as int,
            ),
            done ==> views_of(out@) =~= entries_from(text@, 0),
        decreases n - start + (if done {
            0int
        } else {
            1int
        }),
    {
        let e = find_newline(text, start);
        let line = copy_range(text, start, e);
        let ghost prev = views_of(out@);
        let hit = parse_line_entry(&line);
        match hit {
            Some(b) => {
                let ghost bv = b@;
                out.push(b);
                proof {
                    assert(views_of(out@) =~= prev.push(bv));
                }
            },
            None => {},
        }
        proof {
            assert(views_of(out@) =~= prev + (match entry_from(line@, 0) {
                Some(x) => seq![x],
                None => Seq::<EntryV>::empty(),
            }));
        }
        if e == n {
            done = true;
        } else {
            start = e + 1;
        }
    }
    proof {
        assert(views_of(out@) =~= entries_from(text@, 0));
    }
    out
}

/// The line prefix that introduces the stored boot order.
pub open spec fn order_prefix() -> Seq<char> {
    seq!['B', 'o', 'o', 't', 'O', 'r', 'd', 'e', 'r', ':']
}

fn order_prefix_chars() -> (v: Vec<char>)
    ensures
        v@ == order_prefix(),
{
    let v: Vec<char> = vec!['B', 'o', 'o', 't', 'O', 'r', 'd', 'e', 'r', ':'];
    assert(v@ =~= order_prefix());
    v
}

/// The identifiers of the comma-separated tokens of `s` from position
/// `start` on; a token that is not one to four hexadecimal digits after
/// trimming is dropped.
pub open spec fn tokens_from(s: Seq<char>, start: int) -> Seq<u16>
    decreases s.len() - start when 0 <= start <= s.len() via tokens_from_dec
{
    let e = comma_end(s, start);
    let this = match hex_token_val(trim_spec(s.subrange(start, e))) {
        Some(id) => seq![id],
        None => Seq::empty(),
    };
    if e >= s.len() {
        this
    } else {
        this + tokens_from(s, e + 1)
    }
}

#[via_fn]
proof fn tokens_from_dec(s: Seq<char>, start: int) {
    lemma_comma_end(s, start);
}

/// Parse one comma-separated identifier list.
fn parse_order_tokens(s: &Vec<char>) -> (r: Vec<u16>)
    ensures
        r@ == tokens_from(s@, 0),
{
    let n: usize = s.len();
    let mut out: Vec<u16> = Vec::new();
    let mut start: usize = 0;
    let mut done: bool = false;
    while !done
        invariant
            0 <= start <= n == s@.len(),
            !done ==> tokens_from(s@, 0) =~= out@ + tokens_from(s@, start as int),
            done ==> out@ =~= tokens_from(s@, 0),
        decreases n - start + (if done {
            0int
        } else {
            1int
        }),
    {
        let e = find_comma(s, start);
        let raw = copy_range(s, start, e);
        let tok = trim_chars(&raw);
        let ghost prev = out@;
        match parse_hex_token(&tok) {
            Some(id) => {
                out.push(id);
            },
            None => {},
        }
        proof {
            assert(out@ =~= prev + (match hex_token_val(trim_spec(
                s@.subrange(start as int, e as int),
            )) {
                Some(id) => seq![id],
                None => Seq::<u16>::empty(),
            }));
        }
        if e == n {
            done = true;
        } else {
            start = e + 1;
        }
    }
    out
}

/// The stored boot order read from the lines of `t` from position `start`
/// on: the first line that starts with the order prefix decides; absent
/// such a line, the order is empty.
pub open spec fn order_from(t: Seq<char>, start: int) -> Seq<u16>
    decreases t.len() - start when 0 <= start <= t.len() via order_from_dec
{
    let e = line_end(t, start);
    let line = t.subrange(start, e);
    if has_prefix(line, order_prefix()) {
        tokens_from(trim_spec(line.subrange(order_prefix().len() as int, line.len() as int)), 0)
    } else if e >= t.len() {
        Seq::empty()
    } else {
        order_from(t, e + 1)
    }
}

#[via_fn]
proof fn order_from_dec(t: Seq<char>, start: int) {
    lemma_line_end(t, start);
}

/// Parse the stored boot order out of the inventory tool's output: the
/// text after the first `BootOrder:` prefix, split on commas, each token
/// trimmed and read as an identifier.
pub fn parse_boot_order(text: &Vec<char>) -> (r: Vec<u16>)
    ensures
        r@ == order_from(text@, 0),
{
    let n: usize = text.len();
    let prefix = order_prefix_chars();
    let mut start: usize = 0;
    let mut done: bool = false;
    let mut out: Vec<u16> = Vec::new();
    while !done
        invariant
            0 <= start <= n == text@.len(),
            prefix@ == order_prefix(),
            !done ==> out@.len() == 0 && order_from(text@, 0) == order_from(text@, start as int),
            done ==> out@ =~= order_from(text@, 0),
        decreases n - start + (if done {
            0int
        } else {
            1int
        }),
    {
        let e = find_newline(text, start);
        let line = copy_range(text, start, e);
        if chars_have_prefix(&line, &prefix) {
            let rest = copy_range(&line, prefix.len(), line.len());
            let trimmed = trim_chars(&rest);
            out = parse_order_tokens(&trimmed);
            done = true;
        } else if e == n {
            done = true;
            proof {
                assert(order_from(text@, start as int) =~= Seq::<u16>::empty());
            }
        } else {
            start = e + 1;
        }
    }
    out
}

} // verus!
