//! What the control panel's page must offer, read as text.
//!
//! The panel resolves its elements by id, so every id it reaches for must
//! appear on the page exactly once, and every parameter control the page
//! offers must be one the panel drives.
use vstd::prelude::*;
use vstd::string::*;

verus! {

pub open spec fn id_mark() -> Seq<char> {
    seq!['i', 'd', '=', '"']
}

/// Whether `p` occurs in `t` at `j`.
pub open spec fn occurs_at(t: Seq<char>, p: Seq<char>, j: int) -> bool {
    0 <= j && j + p.len() <= t.len() && t.subrange(j, j + p.len()) == p
}

/// The first occurrence of `p` in `t` at or after `j`.
pub open spec fn find_from(t: Seq<char>, p: Seq<char>, j: int) -> Option<int>
    decreases t.len() + 1 - j,
{
    if j < 0 || j + p.len() > t.len() {
        None
    } else if occurs_at(t, p, j) {
        Some(j)
    } else {
        find_from(t, p, j + 1)
    }
}

/// The first `c` in `t` at or after `j`.
pub open spec fn find_char_from(t: Seq<char>, c: char, j: int) -> Option<int>
    decreases t.len() - j,
{
    if j < 0 || j >= t.len() {
        None
    } else if t[j] == c {
        Some(j)
    } else {
        find_char_from(t, c, j + 1)
    }
}

/// The last `c` in `t` before `j`.
pub open spec fn rfind_char_before(t: Seq<char>, c: char, j: int) -> Option<int>
    decreases j,
{
    if j <= 0 || j > t.len() {
        None
    } else if t[j - 1] == c {
        Some(j - 1)
    } else {
        rfind_char_before(t, c, j - 1)
    }
}

/// The ids written `id="..."` in `t` from `j` on, in order; an opening
/// without a closing quote names nothing.
pub open spec fn ids_from(t: Seq<char>, j: int) -> Seq<Seq<char>>
    decreases t.len() + 1 - j,
{
    if j < 0 {
        Seq::empty()
    } else {
        proof {
            lemma_find_from_bounds(t, id_mark(), j);
        }
        match find_from(t, id_mark(), j) {
            None => Seq::empty(),
            Some(k) => {
                let here = match find_char_from(t, '"', k + 4) {
                    Some(q) => seq![t.subrange(k + 4, q)],
                    None => Seq::empty(),
                };
                if k + 4 > j {
                    here + ids_from(t, k + 4)
                } else {
                    here
                }
            },
        }
    }
}

/// Every id on the page, in order.
pub open spec fn page_ids_spec(page: Seq<char>) -> Seq<Seq<char>> {
    ids_from(page, 0)
}

pub proof fn lemma_find_from_bounds(t: Seq<char>, p: Seq<char>, j: int)
    ensures
        find_from(t, p, j) matches Some(k) ==> j <= k && occurs_at(t, p, k),
    decreases t.len() + 1 - j,
{
    if !(j < 0 || j + p.len() > t.len()) && !occurs_at(t, p, j) {
        lemma_find_from_bounds(t, p, j + 1);
    }
}

pub proof fn lemma_find_char_bounds(t: Seq<char>, c: char, j: int)
    ensures
        find_char_from(t, c, j) matches Some(k) ==> j <= k < t.len() && t[k] == c,
    decreases t.len() - j,
{
    if !(j < 0 || j >= t.len()) && t[j] != c {
        lemma_find_char_bounds(t, c, j + 1);
    }
}

pub proof fn lemma_rfind_bounds(t: Seq<char>, c: char, j: int)
    ensures
        rfind_char_before(t, c, j) matches Some(k) ==> 0 <= k < j && t[k] == c,
    decreases j,
{
    if !(j <= 0 || j > t.len()) && t[j - 1] != c {
        lemma_rfind_bounds(t, c, j - 1);
    }
}

/// The characters of `text`.
pub fn chars_of(text: &str) -> (v: Vec<char>)
    ensures
        v@ == text@,
{
    let n = text.unicode_len();
    let mut v: Vec<char> = Vec::new();
    let mut i: usize = 0;
    while i < n
        invariant
            n == text@.len(),
            i <= n,
            v@ == text@.subrange(0, i as int),
        decreases n - i,
    {
        v.push(text.get_char(i));
        i += 1;
        assert(v@ =~= text@.subrange(0, i as int));
    }
    assert(text@.subrange(0, n as int) =~= text@);
    v
}

fn occurs_at_exec(t: &Vec<char>, p: &Vec<char>, j: usize) -> (r: bool)
    ensures
        r == occurs_at(t@, p@, j as int),
{
    if j > t.len() || p.len() > t.len() - j {
        return false;
    }
    let mut k: usize = 0;
    while k < p.len()
        invariant
            j + p@.len() <= t.len(),
            k <= p@.len(),
            forall|m: int| 0 <= m < k ==> t@[j + m] == p@[m],
        decreases p.len() - k,
    {
        if t[j + k] != p[k] {
            assert(t@.subrange(j as int, j + p@.len())[k as int] != p@[k as int]);
            return false;
        }
        k += 1;
    }
    assert(t@.subrange(j as int, j + p@.len()) =~= p@);
    true
}

fn find_from_exec(t: &Vec<char>, p: &Vec<char>, j: usize) -> (r: Option<usize>)
    requires
        p@.len() > 0,
    ensures
        match r {
            Some(k) => find_from(t@, p@, j as int) == Some(k as int),
            None => find_from(t@, p@, j as int) is None,
        },
{
    let mut k: usize = j;
    if p.len() > t.len() {
        return None;
    }
    while k <= t.len() - p.len()
        invariant
            p@.len() > 0,
            p@.len() <= t@.len(),
            j <= k,
            find_from(t@, p@, j as int) == find_from(t@, p@, k as int),
        decreases t.len() - k,
    {
        if occurs_at_exec(t, p, k) {
            return Some(k);
        }
        k += 1;
    }
    None
}

fn find_char_exec(t: &Vec<char>, c: char, j: usize) -> (r: Option<usize>)
    ensures
        match r {
            Some(k) => find_char_from(t@, c, j as int) == Some(k as int),
            None => find_char_from(t@, c, j as int) is None,
        },
{
    let mut k: usize = j;
    while k < t.len()
        invariant
            j <= k,
            find_char_from(t@, c, j as int) == find_char_from(t@, c, k as int),
        decreases t.len() - k,
    {
        if t[k] == c {
            return Some(k);
        }
        k += 1;
    }
    None
}

fn rfind_char_exec(t: &Vec<char>, c: char, j: usize) -> (r: Option<usize>)
    requires
        j <= t@.len(),
    ensures
        match r {
            Some(k) => rfind_char_before(t@, c, j as int) == Some(k as int),
            None => rfind_char_before(t@, c, j as int) is None,
        },
{
    let mut k: usize = j;
    while k > 0
        invariant
            k <= j <= t@.len(),
            rfind_char_before(t@, c, j as int) == rfind_char_before(t@, c, k as int),
        decreases k,
    {
        if t[k - 1] == c {
            return Some(k - 1);
        }
        k -= 1;
    }
    None
}

fn mark_exec() -> (v: Vec<char>)
    ensures
        v@ == id_mark(),
{
    let mut v: Vec<char> = Vec::new();
    v.push('i');
    v.push('d');
    v.push('=');
    v.push('"');
    assert(v@ =~= id_mark());
    v
}

/// Every id written `id="..."` on the page, in order.
pub fn page_ids(page: &str) -> (ids: Vec<String>)
    ensures
        ids@.map_values(|s: String| s@) == page_ids_spec(page@),
{
    let t = chars_of(page);
    let mark = mark_exec();
    let mut ids: Vec<String> = Vec::new();
    let mut j: usize = 0;
    loop
        invariant
            t@ == page@,
            mark@ == id_mark(),
            ids@.map_values(|s: String| s@) + ids_from(t@, j as int) == page_ids_spec(page@),
        decreases t@.len() - j,
    {
        let ghost before = ids@.map_values(|s: String| s@);
        match find_from_exec(&t, &mark, j) {
            None => {
                assert(ids_from(t@, j as int) =~= Seq::<Seq<char>>::empty());
                assert(ids@.map_values(|s: String| s@) + Seq::<Seq<char>>::empty() =~= ids@.map_values(|s: String| s@));
                return ids;
            },
            Some(k) => {
                proof {
                    lemma_find_from_bounds(t@, id_mark(), j as int);
                    assert(id_mark().len() == 4);
                    assert(k + 4 <= t@.len());
                }
                let start = k + 4;
                match find_char_exec(&t, '"', start) {
                    Some(q) => {
                        proof {
                            lemma_find_char_bounds(t@, '"', start as int);
                        }
                        let id = String::from_str(page.substring_char(start, q));
                        ids.push(id);
                        assert(ids@.map_values(|s: String| s@) =~= before + seq![t@.subrange(start as int, q as int)]);
                    },
                    None => {
                        assert(ids@.map_values(|s: String| s@) =~= before);
                    },
                }
                assert(ids@.map_values(|s: String| s@) + ids_from(t@, start as int) =~= before + ids_from(t@, j as int));
                j = start;
            },
        }
    }
}

/// How many times `x` occurs in `s`.
pub open spec fn count_of(s: Seq<Seq<char>>, x: Seq<char>) -> nat
    decreases s.len(),
{
    if s.len() == 0 {
        0
    } else {
        count_of(s.drop_last(), x) + if s.last() == x {
            1nat
        } else {
            0nat
        }
    }
}

/// How many times the page carries the id `id`.
pub fn count_id(ids: &Vec<String>, id: &str) -> (n: usize)
    ensures
        n == count_of(ids@.map_values(|s: String| s@), id@),
{
    let wanted = String::from_str(id);
    let ghost all = ids@.map_values(|s: String| s@);
    let mut n: usize = 0;
    let mut i: usize = 0;
    assert(all.subrange(0, 0) =~= Seq::<Seq<char>>::empty());
    while i < ids.len()
        invariant
            i <= ids@.len(),
            all == ids@.map_values(|s: String| s@),
            n == count_of(all.subrange(0, i as int), id@),
            n <= i,
            wanted@ == id@,
        decreases ids.len() - i,
    {
        assert(all.subrange(0, i + 1).drop_last() =~= all.subrange(0, i as int));
        if ids[i] == wanted {
            n += 1;
        }
        i += 1;
    }
    assert(all.subrange(0, ids@.len() as int) =~= all);
    n
}

/// Whether some id appears twice.
pub fn has_duplicate(ids: &Vec<String>) -> (r: bool)
    ensures
        r == !ids@.map_values(|s: String| s@).no_duplicates(),
{
    let ghost all = ids@.map_values(|s: String| s@);
    let mut i: usize = 0;
    while i < ids.len()
        invariant
            i <= ids@.len(),
            all == ids@.map_values(|s: String| s@),
            forall|a: int, b: int| 0 <= a < i && 0 <= b < ids@.len() && a != b ==> all[a] != all[b],
        decreases ids.len() - i,
    {
        let mut k: usize = 0;
        while k < ids.len()
            invariant
                i < ids@.len(),
                k <= ids@.len(),
                all == ids@.map_values(|s: String| s@),
                forall|b: int| 0 <= b < k && b != i ==> all[i as int] != all[b],
            decreases ids.len() - k,
        {
            if k != i && ids[i] == ids[k] {
                assert(all[i as int] == all[k as int]);
                return true;
            }
            k += 1;
        }
        i += 1;
    }
    false
}

pub open spec fn parameter_mark() -> Seq<char> {
    "data-rackforge-parameter-index="@
}

/// The id of the tag around the attribute at `at`, if the tag opens before it,
/// closes after it and carries a closed `id="..."`.
pub open spec fn tag_id_at(t: Seq<char>, at: int) -> Option<Seq<char>> {
    match (rfind_char_before(t, '<', at), find_char_from(t, '>', at)) {
        (Some(open), Some(close)) => {
            let tag = t.subrange(open, close);
            match find_from(tag, id_mark(), 0) {
                None => None,
                Some(found) => match find_char_from(tag, '"', found + 4) {
                    None => None,
                    Some(q) => Some(tag.subrange(found + 4, q)),
                },
            }
        },
        _ => None,
    }
}

/// The ids of the parameter controls on the page from `j` on, in order;
/// `None` when one of them is not inside a closed tag with an id.
pub open spec fn offered_from(t: Seq<char>, j: int) -> Option<Seq<Seq<char>>>
    decreases t.len() + 1 - j,
{
    if j < 0 {
        Some(Seq::empty())
    } else {
        proof {
            lemma_find_from_bounds(t, parameter_mark(), j);
        }
        match find_from(t, parameter_mark(), j) {
            None => Some(Seq::empty()),
            Some(at) => match tag_id_at(t, at) {
                None => None,
                Some(id) => if at + parameter_mark().len() > j {
                    match offered_from(t, at + parameter_mark().len()) {
                        None => None,
                        Some(rest) => Some(seq![id] + rest),
                    }
                } else {
                    None
                },
            },
        }
    }
}

fn tag_id_exec(page: &str, t: &Vec<char>, mark: &Vec<char>, at: usize) -> (r: Option<String>)
    requires
        t@ == page@,
        mark@ == id_mark(),
        at <= t@.len(),
    ensures
        match r {
            Some(s) => tag_id_at(t@, at as int) == Some(s@),
            None => tag_id_at(t@, at as int) is None,
        },
{
    let open = match rfind_char_exec(t, '<', at) {
        Some(o) => o,
        None => return None,
    };
    let close = match find_char_exec(t, '>', at) {
        Some(c) => c,
        None => return None,
    };
    proof {
        lemma_rfind_bounds(t@, '<', at as int);
        lemma_find_char_bounds(t@, '>', at as int);
    }
    let tag_str = page.substring_char(open, close);
    let tag = chars_of(tag_str);
    assert(tag@ == t@.subrange(open as int, close as int));
    let found = match find_from_exec(&tag, mark, 0) {
        Some(f) => f,
        None => return None,
    };
    proof {
        lemma_find_from_bounds(tag@, id_mark(), 0);
    }
    let q = match find_char_exec(&tag, '"', found + 4) {
        Some(q) => q,
        None => return None,
    };
    proof {
        lemma_find_char_bounds(tag@, '"', found + 4);
    }
    Some(String::from_str(tag_str.substring_char(found + 4, q)))
}

/// The ids of the parameter controls the page offers, in order, or `None`
/// when one of them is not inside a closed tag carrying an id.
pub fn offered_controls(page: &str) -> (r: Option<Vec<String>>)
    ensures
        match r {
            Some(v) => offered_from(page@, 0) == Some(v@.map_values(|s: String| s@)),
            None => offered_from(page@, 0) is None,
        },
{
    let t = chars_of(page);
    let mark = mark_exec();
    let pm_str = "data-rackforge-parameter-index=";
    let pm = chars_of(pm_str);
    proof {
        reveal_strlit("data-rackforge-parameter-index=");
    }
    assert(pm@ == parameter_mark());
    let mut ids: Vec<String> = Vec::new();
    let mut j: usize = 0;
    loop
        invariant
            t@ == page@,
            mark@ == id_mark(),
            pm@ == parameter_mark(),
            pm@.len() == 31,
            match offered_from(t@, j as int) {
                None => offered_from(t@, 0) is None,
                Some(rest) => offered_from(t@, 0) == Some(ids@.map_values(|s: String| s@) + rest),
            },
        decreases t@.len() - j,
    {
        let ghost before = ids@.map_values(|s: String| s@);
        match find_from_exec(&t, &pm, j) {
            None => {
                assert(before + Seq::<Seq<char>>::empty() =~= before);
                return Some(ids);
            },
            Some(at) => {
                proof {
                    lemma_find_from_bounds(t@, parameter_mark(), j as int);
                }
                match tag_id_exec(page, &t, &mark, at) {
                    None => {
                        return None;
                    },
                    Some(id) => {
                        let ghost idv = id@;
                        ids.push(id);
                        let next = at + 31;
                        proof {
                            assert(ids@.map_values(|s: String| s@) =~= before + seq![idv]);
                            match offered_from(t@, next as int) {
                                None => {},
                                Some(rest) => {
                                    assert(ids@.map_values(|s: String| s@) + rest =~= before + (seq![idv] + rest));
                                },
                            }
                        }
                        j = next;
                    },
                }
            },
        }
    }
}

} // verus!
