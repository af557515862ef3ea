//! A filesystem entry as the library sees it: plain values only. The
//! caller (who does the actual directory reading) fills these in; paths are
//! strings and timestamps are seconds since the Unix epoch.

use vstd::prelude::*;
use vstd::string::{StringExecFns, StrSliceExecFns};
use vstd::multiset::Multiset;
use crate::config::GroupBy;
use crate::strutil::{chars_lt, dec_digits, str_eq, str_lt, u64_to_dec};
use crate::trusted::{
    char_is_alphabetic, date_label, date_label_of, datetime_label, datetime_label_of, is_alpha,
    lower_of, lowercase, upper_of, uppercase,
};

verus! {

/// One file or directory, as delivered by the directory-listing caller.
pub struct Entry {
    pub name: String,
    pub path: String,
    pub is_dir: bool,
    pub size: u64,
    pub modified: Option<u64>,
    pub extension: String,
}

/// `value` scaled to tenths of `unit`, rounded half up.
pub open spec fn tenths_of(value: int, unit: int) -> int {
    (value * 20 / unit + 1) / 2
}

/// `value` scaled to hundredths of `unit`, rounded half up.
pub open spec fn hundredths_of(value: int, unit: int) -> int {
    (value * 200 / unit + 1) / 2
}

/// The human-readable size: bytes below 1 KB, then one decimal of KB or
/// MB, two decimals of GB; directories show a dash.
pub open spec fn size_label(size: int, is_dir: bool) -> Seq<char> {
    if is_dir {
        "\u{2014}"@
    } else if size < 1024 {
        dec_digits(size) + " B"@
    } else if size < 1048576 {
        let t = tenths_of(size, 1024);
        dec_digits(t / 10) + "."@ + dec_digits(t % 10) + " KB"@
    } else if size < 1073741824 {
        let t = tenths_of(size, 1048576);
        dec_digits(t / 10) + "."@ + dec_digits(t % 10) + " MB"@
    } else {
        let h = hundredths_of(size, 1073741824);
        dec_digits(h / 100) + "."@ + dec_digits(h % 100 / 10) + dec_digits(h % 10) + " GB"@
    }
}

impl Entry {
    /// Human-readable file size string.
    pub fn size_display(&self) -> (r: String)
        ensures
            r@ == size_label(self.size as int, self.is_dir),
    {
        if self.is_dir {
            return "\u{2014}".to_owned();
        }
        let size = self.size;
        if size < 1024 {
            let mut s = u64_to_dec(size);
            s.append(" B");
            proof {
                assert(s@ =~= size_label(size as int, false));
            }
            s
        } else if size < 1024 * 1024 {
            let t = (((size as u128) * 20 / 1024 + 1) / 2) as u64;
            let mut s = u64_to_dec(t / 10);
            s.append(".");
            s.append(u64_to_dec(t % 10).as_str());
            s.append(" KB");
            proof {
                assert(s@ =~= size_label(size as int, false));
            }
            s
        } else if size < 1024 * 1024 * 1024 {
            let t = (((size as u128) * 20 / (1024 * 1024) + 1) / 2) as u64;
            let mut s = u64_to_dec(t / 10);
            s.append(".");
            s.append(u64_to_dec(t % 10).as_str());
            s.append(" MB");
            proof {
                assert(s@ =~= size_label(size as int, false));
            }
            s
        } else {
            let h = (((size as u128) * 200 / (1024 * 1024 * 1024) + 1) / 2) as u64;
            let mut s = u64_to_dec(h / 100);
            s.append(".");
            s.append(u64_to_dec(h % 100 / 10).as_str());
            s.append(u64_to_dec(h % 10).as_str());
            s.append(" GB");
            proof {
                assert(s@ =~= size_label(size as int, false));
            }
            s
        }
    }

    /// Human-readable modification date, minute resolution; a dash when
    /// the timestamp is missing or unrepresentable.
    pub fn modified_display(&self) -> (r: String)
        ensures
            self.modified is None ==> r@ == "\u{2014}"@,
            self.modified is Some ==> (r@ == datetime_label_of(self.modified->0 as int) || r@
                == "\u{2014}"@),
            (self.modified is Some && 0 <= self.modified->0 <= 253_402_300_799) ==> r@
                == datetime_label_of(self.modified->0 as int),
    {
        match self.modified {
            None => "\u{2014}".to_owned(),
            Some(secs) => {
                if secs <= i64::MAX as u64 {
                    match datetime_label(secs as i64) {
                        Some(s) => s,
                        None => "\u{2014}".to_owned(),
                    }
                } else {
                    "\u{2014}".to_owned()
                }
            },
        }
    }
    /// The category label used for grouping: nothing, a type tag, a date,
    /// or the (uppercased) first letter of the name.
    pub fn group_key(&self, group_by: &GroupBy) -> (r: String)
        ensures
            *group_by == GroupBy::Ungrouped ==> r@ == Seq::<char>::empty(),
            *group_by == GroupBy::Type ==> r@ == (if self.is_dir {
                "\u{1F4C1} Folders"@
            } else if self.extension@.len() == 0 {
                "\u{1F4C4} Other"@
            } else {
                "\u{1F4C4} ."@ + upper_of(self.extension@)
            }),
            *group_by == GroupBy::Date && self.modified is None ==> r@ == "Unknown"@,
            *group_by == GroupBy::Date && self.modified is Some ==> (r@ == date_label_of(
                self.modified->0 as int,
            ) || r@ == "Unknown"@),
            (*group_by == GroupBy::Date && self.modified is Some && 0 <= self.modified->0
                <= 253_402_300_799) ==> r@ == date_label_of(self.modified->0 as int),
            *group_by == GroupBy::Name ==> r@ == (if self.name@.len() > 0 && is_alpha(
                self.name@[0],
            ) {
                upper_of(self.name@.subrange(0, 1))
            } else {
                "#"@
            }),
    {
        match group_by {
            GroupBy::Ungrouped => String::new(),
            GroupBy::Type => {
                if self.is_dir {
                    "\u{1F4C1} Folders".to_owned()
                } else if self.extension.unicode_len() == 0 {
                    "\u{1F4C4} Other".to_owned()
                } else {
                    let upper = uppercase(self.extension.as_str());
                    let mut s = "\u{1F4C4} .".to_owned();
                    s.append(upper.as_str());
                    s
                }
            },
            GroupBy::Date => {
                match self.modified {
                    None => "Unknown".to_owned(),
                    Some(secs) => {
                        if secs <= i64::MAX as u64 {
                            match date_label(secs as i64) {
                                Some(s) => s,
                                None => "Unknown".to_owned(),
                            }
                        } else {
                            "Unknown".to_owned()
                        }
                    },
                }
            },
            GroupBy::Name => {
                if self.name.unicode_len() == 0 {
                    return "#".to_owned();
                }
                let first = self.name.as_str().substring_char(0, 1);
                if char_is_alphabetic(self.name.as_str().get_char(0)) {
                    proof {
                        assert(first@ == self.name@.subrange(0, 1));
                        assert(first@[0] == self.name@[0]);
                    }
                    uppercase(first)
                } else {
                    "#".to_owned()
                }
            },
        }
    }
}

/// Entries are ordered directories first, then case-insensitively by name.
pub open spec fn entry_le(a: Entry, b: Entry) -> bool {
    if a.is_dir != b.is_dir {
        a.is_dir
    } else {
        !chars_lt(lower_of(b.name@), lower_of(a.name@))
    }
}

/// Decide the listing order of two entries.
pub fn entry_le_exec(a: &Entry, b: &Entry) -> (r: bool)
    ensures
        r == entry_le(*a, *b),
{
    if a.is_dir != b.is_dir {
        a.is_dir
    } else {
        let la = lowercase(a.name.as_str());
        let lb = lowercase(b.name.as_str());
        !str_lt(lb.as_str(), la.as_str())
    }
}

/// Lexicographic order is connected: two sequences compare some way.
pub proof fn lemma_chars_lt_connected(a: Seq<char>, b: Seq<char>)
    ensures
        chars_lt(a, b) || chars_lt(b, a) || a == b,
    decreases a.len(),
{
    if b.len() == 0 && a.len() == 0 {
        assert(a =~= b);
    } else if b.len() == 0 || a.len() == 0 {
    } else if a[0] != b[0] {
    } else {
        let ta = a.subrange(1, a.len() as int);
        let tb = b.subrange(1, b.len() as int);
        lemma_chars_lt_connected(ta, tb);
        if !chars_lt(a, b) && !chars_lt(b, a) {
            assert(ta == tb);
            assert(a.len() == b.len());
            assert forall|i: int| 0 <= i < a.len() implies a[i] == b[i] by {
                if i > 0 {
                    assert(ta[i - 1] == a[i] && tb[i - 1] == b[i]);
                }
            }
            assert(a =~= b);
        }
    }
}

/// Lexicographic order is transitive, phrased over the non-strict side.
pub proof fn lemma_chars_ge_trans(a: Seq<char>, b: Seq<char>, c: Seq<char>)
    requires
        !chars_lt(a, b),
        !chars_lt(b, c),
    ensures
        !chars_lt(a, c),
    decreases a.len(),
{
    if c.len() == 0 {
    } else if b.len() == 0 {
        assert(chars_lt(b, c));
        assert(false);
    } else if a.len() == 0 {
        assert(chars_lt(a, b));
        assert(false);
    } else {
        if a[0] == b[0] && b[0] == c[0] {
            lemma_chars_ge_trans(
                a.subrange(1, a.len() as int),
                b.subrange(1, b.len() as int),
                c.subrange(1, c.len() as int),
            );
        }
    }
}

/// Lexicographic order is irreflexive.
pub proof fn lemma_chars_lt_irrefl(a: Seq<char>)
    ensures
        !chars_lt(a, a),
    decreases a.len(),
{
    if a.len() > 0 {
        lemma_chars_lt_irrefl(a.subrange(1, a.len() as int));
    }
}

/// Lexicographic order is asymmetric.
pub proof fn lemma_chars_lt_asym(a: Seq<char>, b: Seq<char>)
    requires
        chars_lt(a, b),
    ensures
        !chars_lt(b, a),
    decreases a.len(),
{
    if a.len() > 0 && b.len() > 0 && a[0] == b[0] {
        lemma_chars_lt_asym(a.subrange(1, a.len() as int), b.subrange(1, b.len() as int));
    }
}

/// Lexicographic order is transitive.
pub proof fn lemma_chars_lt_trans(a: Seq<char>, b: Seq<char>, c: Seq<char>)
    requires
        chars_lt(a, b),
        chars_lt(b, c),
    ensures
        chars_lt(a, c),
    decreases a.len() + b.len() + c.len(),
{
    if a.len() > 0 && b.len() > 0 && c.len() > 0 && a[0] == b[0] && b[0] == c[0] {
        lemma_chars_lt_trans(
            a.subrange(1, a.len() as int),
            b.subrange(1, b.len() as int),
            c.subrange(1, c.len() as int),
        );
    }
}

/// The listing order is reflexive.
pub proof fn lemma_entry_le_refl(a: Entry)
    ensures
        entry_le(a, a),
{
    lemma_chars_lt_irrefl(lower_of(a.name@));
}

/// The listing order is total.
pub proof fn lemma_entry_le_total(a: Entry, b: Entry)
    ensures
        entry_le(a, b) || entry_le(b, a),
{
    let la = lower_of(a.name@);
    let lb = lower_of(b.name@);
    lemma_chars_lt_connected(la, lb);
    if chars_lt(la, lb) {
        lemma_chars_lt_asym(la, lb);
    }
    if chars_lt(lb, la) {
        lemma_chars_lt_asym(lb, la);
    }
    if la == lb {
        lemma_chars_lt_irrefl(la);
    }
}

/// The listing order is transitive.
pub proof fn lemma_entry_le_trans(a: Entry, b: Entry, c: Entry)
    requires
        entry_le(a, b),
        entry_le(b, c),
    ensures
        entry_le(a, c),
{
    if a.is_dir == b.is_dir && b.is_dir == c.is_dir {
        lemma_chars_ge_trans(
            lower_of(c.name@),
            lower_of(b.name@),
            lower_of(a.name@),
        );
    }
}

/// Sort a listing by selection: directories first, then case-insensitive
/// name order. The result is a reordering of the input — nothing is added
/// or lost.
#[verifier::rlimit(100)]
pub fn sort_entries(entries: Vec<Entry>) -> (r: Vec<Entry>)
    ensures
        r@.to_multiset() == entries@.to_multiset(),
        r@.len() == entries@.len(),
        forall|i: int, j: int|
            0 <= i < j < r@.len() ==> entry_le(#[trigger] r@[i], #[trigger] r@[j]),
{
    let mut src = entries;
    let mut out: Vec<Entry> = Vec::new();
    proof {
        src@.to_multiset_ensures();
        out@.to_multiset_ensures();
        assert(forall|x: Entry| out@.to_multiset().count(x) == 0);
        assert(src@.to_multiset().add(out@.to_multiset()) =~= src@.to_multiset());
    }
    while src.len() > 0
        invariant
            src@.to_multiset().add(out@.to_multiset()) == entries@.to_multiset(),
            src@.len() + out@.len() == entries@.len(),
            forall|i: int, j: int|
                0 <= i < j < out@.len() ==> entry_le(#[trigger] out@[i], #[trigger] out@[j]),
            forall|i: int, j: int|
                0 <= i < out@.len() && 0 <= j < src@.len() ==> entry_le(
                    #[trigger] out@[i],
                    #[trigger] src@[j],
                ),
        decreases src@.len(),
    {
        let mut best: usize = 0;
        let mut j: usize = 1;
        proof {
            lemma_entry_le_refl(src@[0]);
        }
        while j < src.len()
            invariant
                best < j,
                j <= src@.len(),
                src@.len() > 0,
                forall|q: int| 0 <= q < j ==> entry_le(src@[best as int], #[trigger] src@[q]),
            decreases src@.len() - j,
        {
            if !entry_le_exec(&src[best], &src[j]) {
                proof {
                    lemma_entry_le_total(src@[best as int], src@[j as int]);
                    assert forall|q: int| 0 <= q < j + 1 implies entry_le(
                        src@[j as int],
                        #[trigger] src@[q],
                    ) by {
                        if q == j {
                            lemma_entry_le_refl(src@[q]);
                        } else {
                            lemma_entry_le_trans(src@[j as int], src@[best as int], src@[q]);
                        }
                    }
                }
                best = j;
            }
            j += 1;
        }
        let ghost src_pre = src@;
        let ghost out_pre = out@;
        let picked = src.remove(best);
        out.push(picked);
        proof {
            src_pre.to_multiset_ensures();
            out_pre.to_multiset_ensures();
            assert(src_pre.contains(src_pre[best as int]));
            assert(src@.to_multiset() =~= src_pre.to_multiset().remove(picked));
            assert(out@.to_multiset() =~= out_pre.to_multiset().insert(picked));
            assert(src@.to_multiset().add(out@.to_multiset()) =~= src_pre.to_multiset().add(
                out_pre.to_multiset(),
            ));
            assert forall|jj: int|
                0 <= jj < src@.len() implies entry_le(picked, #[trigger] src@[jj]) by {
                if jj < best {
                    assert(src@[jj] == src_pre[jj]);
                } else {
                    assert(src@[jj] == src_pre[jj + 1]);
                }
            }
            assert forall|i: int, jj: int|
                0 <= i < out@.len() && 0 <= jj < src@.len() implies entry_le(
                #[trigger] out@[i],
                #[trigger] src@[jj],
            ) by {
                if i < out_pre.len() {
                    assert(out@[i] == out_pre[i]);
                    if jj < best {
                        assert(src@[jj] == src_pre[jj]);
                    } else {
                        assert(src@[jj] == src_pre[jj + 1]);
                    }
                } else {
                    assert(out@[i] == picked);
                }
            }
            assert forall|i: int, jj: int|
                0 <= i < jj < out@.len() implies entry_le(
                #[trigger] out@[i],
                #[trigger] out@[jj],
            ) by {
                if jj < out_pre.len() {
                    assert(out@[i] == out_pre[i] && out@[jj] == out_pre[jj]);
                } else {
                    assert(out@[jj] == picked && out@[i] == out_pre[i]);
                }
            }
        }
    }
    proof {
        src@.to_multiset_ensures();
        assert(forall|x: Entry| src@.to_multiset().count(x) == 0);
        assert(out@.to_multiset() =~= entries@.to_multiset());
    }
    out
}

/// The combined size of all groups.
pub open spec fn total_sizes(groups: Seq<(String, Vec<usize>)>) -> int
    decreases groups.len(),
{
    if groups.len() == 0 {
        0
    } else {
        total_sizes(groups.drop_last()) + groups.last().1@.len()
    }
}

/// Growing one group by one element grows the total by one.
pub proof fn lemma_total_sizes_update(
    pre: Seq<(String, Vec<usize>)>,
    post: Seq<(String, Vec<usize>)>,
    j: int,
)
    requires
        0 <= j < pre.len(),
        post.len() == pre.len(),
        forall|q: int| 0 <= q < pre.len() && q != j ==> post[q] == pre[q],
        post[j].1@.len() == pre[j].1@.len() + 1,
    ensures
        total_sizes(post) == total_sizes(pre) + 1,
    decreases pre.len(),
{
    if j == pre.len() - 1 {
        assert(pre.drop_last() =~= post.drop_last());
    } else {
        lemma_total_sizes_update(pre.drop_last(), post.drop_last(), j);
    }
}

/// Inserting a group adds its size to the total.
pub proof fn lemma_total_sizes_insert(
    pre: Seq<(String, Vec<usize>)>,
    post: Seq<(String, Vec<usize>)>,
    j: int,
)
    requires
        0 <= j <= pre.len(),
        post.len() == pre.len() + 1,
        forall|q: int| 0 <= q < j ==> post[q] == pre[q],
        forall|q: int| j < q < post.len() ==> post[q] == pre[q - 1],
    ensures
        total_sizes(post) == total_sizes(pre) + post[j].1@.len(),
    decreases pre.len(),
{
    if j == pre.len() {
        assert(post.drop_last() =~= pre);
    } else {
        lemma_total_sizes_insert(pre.drop_last(), post.drop_last(), j);
        assert(post.last() == pre.last());
    }
}

/// Sorted grouping of a key sequence: group `k` holds, in increasing
/// order, exactly those positions whose key equals the group's key; group
/// keys are strictly increasing, and every position lands in a group.
#[verifier::rlimit(100)]
pub fn group_by_keys(keys: &Vec<String>) -> (groups: Vec<(String, Vec<usize>)>)
    ensures
        forall|k: int, l: int|
            0 <= k < l < groups@.len() ==> chars_lt(
                (#[trigger] groups@[k]).0@,
                (#[trigger] groups@[l]).0@,
            ),
        forall|k: int, m: int|
            0 <= k < groups@.len() && 0 <= m < (#[trigger] groups@[k]).1@.len() ==> {
                &&& (#[trigger] groups@[k].1@[m]) < keys@.len()
                &&& keys@[groups@[k].1@[m] as int]@ == groups@[k].0@
            },
        forall|k: int, m: int, m2: int|
            0 <= k < groups@.len() && 0 <= m < m2 < (#[trigger] groups@[k]).1@.len()
                ==> (#[trigger] groups@[k].1@[m]) < (#[trigger] groups@[k].1@[m2]),
        total_sizes(groups@) == keys@.len(),
{
    let n = keys.len();
    let mut groups: Vec<(String, Vec<usize>)> = Vec::new();
    let mut i: usize = 0;
    while i < n
        invariant
            i <= n,
            n == keys@.len(),
            forall|k: int, l: int|
                0 <= k < l < groups@.len() ==> chars_lt(
                    (#[trigger] groups@[k]).0@,
                    (#[trigger] groups@[l]).0@,
                ),
            forall|k: int, m: int|
                0 <= k < groups@.len() && 0 <= m < (#[trigger] groups@[k]).1@.len() ==> {
                    &&& (#[trigger] groups@[k].1@[m]) < i
                    &&& keys@[groups@[k].1@[m] as int]@ == groups@[k].0@
                },
            forall|k: int, m: int, m2: int|
                0 <= k < groups@.len() && 0 <= m < m2 < (#[trigger] groups@[k]).1@.len()
                    ==> (#[trigger] groups@[k].1@[m]) < (#[trigger] groups@[k].1@[m2]),
            total_sizes(groups@) == i,
        decreases n - i,
    {
        let ghost groups_pre = groups@;
        let mut j: usize = 0;
        while j < groups.len() && str_lt(groups[j].0.as_str(), keys[i].as_str())
            invariant
                j <= groups@.len(),
                i < n,
                n == keys@.len(),
                groups@ == groups_pre,
                forall|q: int|
                    0 <= q < j ==> chars_lt((#[trigger] groups@[q]).0@, keys@[i as int]@),
            decreases groups@.len() - j,
        {
            j += 1;
        }
        let matched = j < groups.len() && str_eq(groups[j].0.as_str(), keys[i].as_str());
        if matched {
            let (gk, mut gv) = groups.remove(j);
            gv.push(i);
            groups.insert(j, (gk, gv));
            proof {
                assert(groups@ =~= groups_pre.update(j as int, groups@[j as int]));
                assert(groups@[j as int].0 == groups_pre[j as int].0);
                assert(groups@[j as int].1@ == groups_pre[j as int].1@.push(i));
                assert forall|k: int, l: int|
                    0 <= k < l < groups@.len() implies chars_lt(
                    (#[trigger] groups@[k]).0@,
                    (#[trigger] groups@[l]).0@,
                ) by {
                    assert(groups@[k].0 == groups_pre[k].0);
                    assert(groups@[l].0 == groups_pre[l].0);
                }
                lemma_total_sizes_update(groups_pre, groups@, j as int);
            }
        } else {
            let mut gv: Vec<usize> = Vec::new();
            gv.push(i);
            groups.insert(j, (keys[i].clone(), gv));
            proof {
                assert(groups@.len() == groups_pre.len() + 1);
                assert(forall|k: int| 0 <= k < j ==> groups@[k] == groups_pre[k]);
                assert(forall|k: int|
                    j < k < groups@.len() ==> groups@[k] == groups_pre[k - 1]);
                assert(groups@[j as int].0@ == keys@[i as int]@);
                assert(groups@[j as int].1@ =~= seq![i]);
                if (j as int) < groups_pre.len() {
                    lemma_chars_lt_connected(groups_pre[j as int].0@, keys@[i as int]@);
                    assert(!chars_lt(groups_pre[j as int].0@, keys@[i as int]@));
                    assert(groups_pre[j as int].0@ != keys@[i as int]@);
                    assert(chars_lt(keys@[i as int]@, groups_pre[j as int].0@));
                }
                assert forall|k: int, l: int|
                    0 <= k < l < groups@.len() implies chars_lt(
                    (#[trigger] groups@[k]).0@,
                    (#[trigger] groups@[l]).0@,
                ) by {
                    if l < j {
                        assert(groups@[k].0 == groups_pre[k].0);
                        assert(groups@[l].0 == groups_pre[l].0);
                    } else if l == j {
                        assert(groups@[k].0 == groups_pre[k].0);
                        assert(chars_lt(groups_pre[k].0@, keys@[i as int]@));
                    } else if k == j {
                        assert(groups@[l].0 == groups_pre[l - 1].0);
                        assert(chars_lt(keys@[i as int]@, groups_pre[j as int].0@));
                        if l - 1 > j {
                            assert(chars_lt(groups_pre[j as int].0@, groups_pre[l - 1].0@));
                            lemma_chars_lt_trans(
                                keys@[i as int]@,
                                groups_pre[j as int].0@,
                                groups_pre[l - 1].0@,
                            );
                        }
                    } else if k < j {
                        assert(groups@[k].0 == groups_pre[k].0);
                        assert(groups@[l].0 == groups_pre[l - 1].0);
                        assert(chars_lt(groups_pre[k].0@, groups_pre[l - 1].0@));
                    } else {
                        assert(groups@[k].0 == groups_pre[k - 1].0);
                        assert(groups@[l].0 == groups_pre[l - 1].0);
                        assert(chars_lt(groups_pre[k - 1].0@, groups_pre[l - 1].0@));
                    }
                }
                lemma_total_sizes_insert(groups_pre, groups@, j as int);
            }
        }
        i += 1;
    }
    groups
}

/// Group a listing by the given strategy: group labels in ascending
/// (byte-wise, as an ordered string map would give them) order, each group
/// holding the indices of its entries in listing order. Grouping by
/// `Ungrouped` yields the single unlabelled group of everything.
pub fn group_entries(entries: &Vec<Entry>, group_by: &GroupBy) -> (groups: Vec<
    (String, Vec<usize>),
>)
    ensures
        *group_by == GroupBy::Ungrouped ==> {
            &&& groups@.len() == 1
            &&& groups@[0].0@ == Seq::<char>::empty()
            &&& groups@[0].1@.len() == entries@.len()
            &&& forall|m: int| 0 <= m < entries@.len() ==> (#[trigger] groups@[0].1@[m]) == m
        },
        forall|k: int, m: int|
            0 <= k < groups@.len() && 0 <= m < (#[trigger] groups@[k]).1@.len() ==> (
            #[trigger] groups@[k].1@[m]) < entries@.len(),
        forall|k: int, m: int, m2: int|
            0 <= k < groups@.len() && 0 <= m < m2 < (#[trigger] groups@[k]).1@.len()
                ==> (#[trigger] groups@[k].1@[m]) < (#[trigger] groups@[k].1@[m2]),
        total_sizes(groups@) == entries@.len(),
        forall|k: int, l: int|
            0 <= k < l < groups@.len() ==> chars_lt(
                (#[trigger] groups@[k]).0@,
                (#[trigger] groups@[l]).0@,
            ),
{
    let n = entries.len();
    match group_by {
        GroupBy::Ungrouped => {
            let mut all: Vec<usize> = Vec::new();
            let mut i: usize = 0;
            while i < n
                invariant
                    i <= n,
                    all@.len() == i,
                    forall|m: int| 0 <= m < i ==> (#[trigger] all@[m]) == m,
                decreases n - i,
            {
                all.push(i);
                i += 1;
            }
            let mut groups: Vec<(String, Vec<usize>)> = Vec::new();
            groups.push((String::new(), all));
            proof {
                assert(groups@.drop_last() =~= Seq::<(String, Vec<usize>)>::empty());
                assert(total_sizes(Seq::<(String, Vec<usize>)>::empty()) == 0);
                assert(groups@.last().1@.len() == n);
            }
            groups
        },
        _ => {
            let mut keys: Vec<String> = Vec::new();
            let mut i: usize = 0;
            while i < n
                invariant
                    i <= n,
                    n == entries@.len(),
                    keys@.len() == i,
                decreases n - i,
            {
                keys.push(entries[i].group_key(group_by));
                i += 1;
            }
            group_by_keys(&keys)
        },
    }
}

} // verus!