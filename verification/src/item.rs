//! The atomic search candidate: a fixed three-field record whose wire form
//! is the three fields joined by single tab characters.

use vstd::prelude::*;

verus! {

/// One search candidate. Immutable once constructed.
#[derive(Debug, PartialEq, Eq)]
pub struct Item {
    pub item_type: String,
    pub name: String,
    pub data: String,
}

impl Clone for Item {
    fn clone(&self) -> (r: Self)
        ensures
            r == *self,
    {
        let r = Item {
            item_type: self.item_type.clone(),
            name: self.name.clone(),
            data: self.data.clone(),
        };
        r
    }
}

/// The least index `>= i` holding a tab, or the length when there is none.
pub open spec fn next_tab(s: Seq<char>, i: int) -> int
    decreases s.len() - i when 0 <= i <= s.len()
{
    if i >= s.len() {
        s.len() as int
    } else if s[i] == '\t' {
        i
    } else {
        next_tab(s, i + 1)
    }
}

/// The first three tab-separated fields of a line, or `None` when the line
/// has fewer than three.
pub open spec fn split3(s: Seq<char>) -> Option<(Seq<char>, Seq<char>, Seq<char>)> {
    let t1 = next_tab(s, 0);
    if t1 == s.len() {
        None
    } else {
        let t2 = next_tab(s, t1 + 1);
        if t2 == s.len() {
            None
        } else {
            let t3 = next_tab(s, t2 + 1);
            Some((s.subrange(0, t1), s.subrange(t1 + 1, t2), s.subrange(t2 + 1, t3)))
        }
    }
}

/// The wire form of a record: the three fields joined by tabs.
pub open spec fn joined_line(kind: Seq<char>, name: Seq<char>, data: Seq<char>) -> Seq<char> {
    kind + seq!['\t'] + name + seq!['\t'] + data
}

proof fn lemma_next_tab_bounds(s: Seq<char>, i: int)
    requires
        0 <= i <= s.len(),
    ensures
        i <= next_tab(s, i) <= s.len(),
        next_tab(s, i) < s.len() ==> s[next_tab(s, i)] == '\t',
        forall|m: int| i <= m < next_tab(s, i) ==> s[m] != '\t',
    decreases s.len() - i,
{
    if i < s.len() && s[i] != '\t' {
        lemma_next_tab_bounds(s, i + 1);
    }
}

/// `next_tab` finds exactly the first tab at or after `i`.
proof fn lemma_next_tab_is(s: Seq<char>, i: int, j: int)
    requires
        0 <= i <= j <= s.len(),
        forall|m: int| i <= m < j ==> s[m] != '\t',
        j < s.len() ==> s[j] == '\t',
    ensures
        next_tab(s, i) == j,
    decreases j - i,
{
    if i < j {
        lemma_next_tab_is(s, i + 1, j);
    }
}

impl Item {
    /// Parses one wire line. Takes the first three tab-separated fields and
    /// returns `None` when the line yields fewer than three.
    pub fn from_line(line: &str) -> (r: Option<Item>)
        ensures
            r is Some <==> split3(line@) is Some,
            r matches Some(item) ==> {
                &&& split3(line@) matches Some(f)
                &&& item.item_type@ == f.0
                &&& item.name@ == f.1
                &&& item.data@ == f.2
            },
    {
        let n = line.unicode_len();
        let t1 = find_tab(line, 0, n);
        if t1 == n {
            proof {
                lemma_next_tab_bounds(line@, 0);
            }
            return None;
        }
        let t2 = find_tab(line, t1 + 1, n);
        if t2 == n {
            return None;
        }
        let t3 = find_tab(line, t2 + 1, n);
        let item = Item {
            item_type: line.substring_char(0, t1).to_owned(),
            name: line.substring_char(t1 + 1, t2).to_owned(),
            data: line.substring_char(t2 + 1, t3).to_owned(),
        };
        Some(item)
    }

    /// The record's fields by position, counted from zero; out-of-range
    /// positions fall back to the name.
    pub fn field(&self, idx: usize) -> (r: &str)
        ensures
            idx == 0 ==> r@ == self.item_type@,
            idx == 1 ==> r@ == self.name@,
            idx == 2 ==> r@ == self.data@,
            idx >= 3 ==> r@ == self.name@,
    {
        match idx {
            0 => self.item_type.as_str(),
            1 => self.name.as_str(),
            2 => self.data.as_str(),
            _ => self.name.as_str(),
        }
    }

    /// Serializes the record back to its wire form.
    pub fn raw(&self) -> (r: String)
        ensures
            r@ == joined_line(self.item_type@, self.name@, self.data@),
    {
        proof {
            reveal_strlit("\t");
        }
        let mut s = self.item_type.clone();
        s.append("\t");
        s.append(self.name.as_str());
        s.append("\t");
        s.append(self.data.as_str());
        assert(s@ == joined_line(self.item_type@, self.name@, self.data@));
        s
    }
}

/// The least index in `[from, n)` holding a tab, or `n` when there is none.
fn find_tab(line: &str, from: usize, n: usize) -> (r: usize)
    requires
        from <= n,
        n == line@.len(),
    ensures
        from <= r <= n,
        r == next_tab(line@, from as int),
{
    let mut i = from;
    while i < n
        invariant
            from <= i <= n,
            n == line@.len(),
            forall|m: int| from <= m < i ==> line@[m] != '\t',
        decreases n - i,
    {
        let c = line.get_char(i);
        if c == '\t' {
            proof {
                lemma_next_tab_is(line@, from as int, i as int);
            }
            return i;
        }
        i += 1;
    }
    proof {
        lemma_next_tab_is(line@, from as int, n as int);
    }
    n
}

/// Parses one provider output line: blank lines and lines with fewer than
/// three fields are skipped, not fatal.
pub fn parse_item_line(line: &str) -> (r: Option<Item>)
    ensures
        crate::strutil::trim_view(line@).len() == 0 ==> r is None,
        crate::strutil::trim_view(line@).len() > 0 ==> {
            &&& (r is Some <==> split3(line@) is Some)
            &&& (r matches Some(item) ==> {
                &&& split3(line@) matches Some(f)
                &&& item.item_type@ == f.0
                &&& item.name@ == f.1
                &&& item.data@ == f.2
            })
        },
{
    if crate::strutil::trim_str(line).unicode_len() == 0 {
        return None;
    }
    Item::from_line(line)
}

/// Serializing a parsed line recovers the original line, provided the line
/// had exactly three fields (its length then accounts for both tabs and
/// nothing more).
pub proof fn lemma_parse_then_serialize(s: Seq<char>, kind: Seq<char>, name: Seq<char>, data: Seq<
    char,
>)
    requires
        split3(s) == Some((kind, name, data)),
        s.len() == kind.len() + name.len() + data.len() + 2,
    ensures
        joined_line(kind, name, data) == s,
{
    let t1 = next_tab(s, 0);
    lemma_next_tab_bounds(s, 0);
    let t2 = next_tab(s, t1 + 1);
    lemma_next_tab_bounds(s, t1 + 1);
    let t3 = next_tab(s, t2 + 1);
    lemma_next_tab_bounds(s, t2 + 1);
    assert(kind == s.subrange(0, t1));
    assert(name == s.subrange(t1 + 1, t2));
    assert(data == s.subrange(t2 + 1, t3));
    assert(t3 == s.len());
    assert(joined_line(kind, name, data) =~= s);
}

/// Parsing a well-formed wire line recovers exactly the fields it was joined
/// from, provided no field itself holds a tab.
pub proof fn lemma_line_round_trip(kind: Seq<char>, name: Seq<char>, data: Seq<char>)
    requires
        forall|i: int| 0 <= i < kind.len() ==> kind[i] != '\t',
        forall|i: int| 0 <= i < name.len() ==> name[i] != '\t',
        forall|i: int| 0 <= i < data.len() ==> data[i] != '\t',
    ensures
        split3(joined_line(kind, name, data)) == Some((kind, name, data)),
{
    let s = joined_line(kind, name, data);
    let k = kind.len() as int;
    let m = name.len() as int;
    let d = data.len() as int;
    assert(s.len() == k + m + d + 2);
    assert forall|i: int| 0 <= i < k implies s[i] != '\t' by {
        assert(s[i] == kind[i]);
    }
    assert(s[k] == '\t');
    lemma_next_tab_is(s, 0, k);
    assert forall|i: int| k + 1 <= i < k + 1 + m implies s[i] != '\t' by {
        assert(s[i] == name[i - (k + 1)]);
    }
    assert(s[k + 1 + m] == '\t');
    lemma_next_tab_is(s, k + 1, k + 1 + m);
    assert forall|i: int| k + m + 2 <= i < s.len() implies s[i] != '\t' by {
        assert(s[i] == data[i - (k + m + 2)]);
    }
    lemma_next_tab_is(s, k + m + 2, s.len() as int);
    assert(s.subrange(0, k) =~= kind);
    assert(s.subrange(k + 1, k + 1 + m) =~= name);
    assert(s.subrange(k + m + 2, s.len() as int) =~= data);
}

} // verus!
