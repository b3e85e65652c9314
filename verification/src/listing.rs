//! Parsers for the listings that the native schedulers print: the `ccplan-<id>.timer` units of
//! `systemctl --user list-timers` and the `\ccplan\<id>` tasks of `schtasks /Query /FO LIST`.
use vstd::prelude::*;
use vstd::multiset::Multiset;
use crate::format::{systemd_unit_prefix, windows_task_prefix};
use crate::order::{insert_sorted, insert_sorted_unique, sorted, strictly_sorted, views};
use crate::text::{
    chars_of, ends_with_at, has_prefix, has_suffix, is_white_space, slice_chars, starts_with_at,
    string_from_chars, trim, trim_bounds, white_space,
};

verus! {

broadcast use vstd::string::group_string_axioms;

/// The number of leading characters of `s` before the first `White_Space` character.
pub open spec fn word_len(s: Seq<char>) -> nat
    decreases s.len(),
{
    if s.len() == 0 || is_white_space(s[0]) {
        0
    } else {
        1 + word_len(s.drop_first())
    }
}

/// A field is never longer than the text it starts, and never empty.
pub proof fn lemma_word_len_bound(s: Seq<char>)
    ensures
        word_len(s) <= s.len(),
        s.len() > 0 && !is_white_space(s[0]) ==> word_len(s) >= 1,
    decreases s.len(),
{
    if s.len() > 0 && !is_white_space(s[0]) {
        lemma_word_len_bound(s.drop_first());
    }
}

/// The maximal runs of non-`White_Space` characters of `s`, in order: the fields that
/// `str::split_whitespace` yields (over the whole text, since line breaks are whitespace too).
pub open spec fn words(s: Seq<char>) -> Seq<Seq<char>>
    decreases s.len(),
{
    if s.len() == 0 {
        seq![]
    } else if is_white_space(s[0]) {
        words(s.drop_first())
    } else {
        proof {
            lemma_word_len_bound(s);
        }
        seq![s.take(word_len(s) as int)] + words(s.skip(word_len(s) as int))
    }
}

/// Characterizes `word_len` by the position of the first whitespace character.
pub proof fn lemma_word_len_at(s: Seq<char>, k: int)
    requires
        0 <= k <= s.len(),
        forall|m: int| 0 <= m < k ==> !is_white_space(#[trigger] s[m]),
        k == s.len() || is_white_space(s[k]),
    ensures
        word_len(s) == k,
    decreases k,
{
    if k > 0 {
        assert forall|m: int| 0 <= m < k - 1 implies !is_white_space(
            #[trigger] s.drop_first()[m],
        ) by {
            assert(s.drop_first()[m] == s[m + 1]);
        }
        lemma_word_len_at(s.drop_first(), k - 1);
    }
}

/// `.timer`
pub open spec fn timer_suffix() -> Seq<char> {
    seq!['.', 't', 'i', 'm', 'e', 'r']
}

/// Whether the field `w` names one of this tool's timer units: `ccplan-<id>.timer`.
pub open spec fn is_timer_unit(w: Seq<char>) -> bool {
    has_prefix(w, systemd_unit_prefix()) && has_suffix(w.skip(7), timer_suffix())
}

/// The backend id inside the timer unit name `w`.
pub open spec fn timer_unit_id(w: Seq<char>) -> Seq<char> {
    w.subrange(7, w.len() - 6)
}

/// The backend ids of the timer units among the fields `ws`, in order.
pub open spec fn timer_ids_of(ws: Seq<Seq<char>>) -> Seq<Seq<char>>
    decreases ws.len(),
{
    if ws.len() == 0 {
        seq![]
    } else if is_timer_unit(ws[0]) {
        seq![timer_unit_id(ws[0])] + timer_ids_of(ws.drop_first())
    } else {
        timer_ids_of(ws.drop_first())
    }
}

/// The backend ids of the timer units named by the fields of `output`, in order of appearance.
pub open spec fn timer_ids(output: Seq<char>) -> Seq<Seq<char>> {
    timer_ids_of(words(output))
}

/// The character sequences held by a vector of strings.
pub open spec fn string_views(v: Seq<String>) -> Seq<Seq<char>> {
    v.map_values(|s: String| s@)
}

/// Converts character vectors to strings, keeping their order.
pub fn strings_of(v: &Vec<Vec<char>>) -> (res: Vec<String>)
    ensures
        string_views(res@) == views(v@),
{
    let mut res: Vec<String> = Vec::new();
    let mut i: usize = 0;
    while i < v.len()
        invariant
            i <= v.len(),
            string_views(res@) == views(v@).take(i as int),
        decreases v.len() - i,
    {
        let s = string_from_chars(&v[i]);
        let ghost old_res = res@;
        res.push(s);
        assert(string_views(res@) =~= string_views(old_res).push(v@[i as int]@));
        assert(views(v@).take(i + 1) =~= views(v@).take(i as int).push(v@[i as int]@));
        i = i + 1;
        assert(string_views(res@) =~= views(v@).take(i as int));
    }
    assert(views(v@).take(v.len() as int) =~= views(v@));
    res
}

/// The id of the timer unit `v[lo..hi]`, if that field is one.
fn timer_id_in(v: &Vec<char>, lo: usize, hi: usize, prefix: &Vec<char>, suffix: &Vec<char>) -> (res:
    Option<Vec<char>>)
    requires
        lo <= hi <= v.len(),
        prefix@ == systemd_unit_prefix(),
        suffix@ == timer_suffix(),
    ensures
        res is Some == is_timer_unit(v@.subrange(lo as int, hi as int)),
        res matches Some(id) ==> id@ == timer_unit_id(v@.subrange(lo as int, hi as int)),
{
    let ghost w = v@.subrange(lo as int, hi as int);
    if !starts_with_at(v, lo, hi, prefix) {
        return None;
    }
    assert(v@.subrange(lo + 7, hi as int) =~= w.skip(7));
    if !ends_with_at(v, lo + 7, hi, suffix) {
        return None;
    }
    let id = slice_chars(v, lo + 7, hi - 6);
    assert(id@ =~= timer_unit_id(w));
    Some(id)
}

/// Extracts `ccplan-<id>.timer` backend ids from `systemctl --user list-timers` output:
/// every whitespace-separated field of that shape, its id, sorted ascending without duplicates.
pub fn parse_timer_units(output: &str) -> (res: Vec<String>)
    ensures
        strictly_sorted(string_views(res@)),
        string_views(res@).to_set() == timer_ids(output@).to_set(),
{
    let v = chars_of(output);
    proof {
        reveal_strlit("ccplan-");
        reveal_strlit(".timer");
    }
    let prefix = chars_of("ccplan-");
    let suffix = chars_of(".timer");
    let mut acc: Vec<Vec<char>> = Vec::new();
    let mut i: usize = 0;
    assert(v@.skip(0) =~= v@);
    while i < v.len()
        invariant
            i <= v.len(),
            prefix@ == systemd_unit_prefix(),
            suffix@ == timer_suffix(),
            strictly_sorted(views(acc@)),
            views(acc@).to_set().union(timer_ids(v@.skip(i as int)).to_set()) == timer_ids(
                v@,
            ).to_set(),
        decreases v.len() - i,
    {
        if white_space(v[i]) {
            assert(v@.skip(i as int).drop_first() =~= v@.skip(i + 1));
            i = i + 1;
        } else {
            let mut j = i;
            while j < v.len() && !white_space(v[j])
                invariant
                    i <= j <= v.len(),
                    forall|m: int| i <= m < j ==> !is_white_space(#[trigger] v@[m]),
                decreases v.len() - j,
            {
                j = j + 1;
            }
            let ghost rest = v@.skip(i as int);
            let ghost w = v@.subrange(i as int, j as int);
            proof {
                assert forall|m: int| 0 <= m < j - i implies !is_white_space(#[trigger] rest[m]) by {
                    assert(rest[m] == v@[i + m]);
                }
                lemma_word_len_at(rest, j - i);
                assert(rest.take(j - i) =~= w);
                assert(rest.skip(j - i) =~= v@.skip(j as int));
                assert(words(rest) == seq![w] + words(v@.skip(j as int)));
                assert((seq![w] + words(v@.skip(j as int))).drop_first() =~= words(v@.skip(j as int)));
            }
            let found = timer_id_in(&v, i, j, &prefix, &suffix);
            match found {
                Some(id) => {
                    let ghost idv = id@;
                    insert_sorted_unique(&mut acc, id);
                    proof {
                        let tail = timer_ids(v@.skip(j as int));
                        assert(timer_ids(rest) == seq![idv] + tail);
                        vstd::seq_lib::seq_to_set_distributes_over_add(seq![idv], tail);
                        assert(seq![idv][0] == idv);
                        assert(seq![idv].to_set() =~= set![idv]);
                        assert(views(acc@).to_set().union(timer_ids(v@.skip(j as int)).to_set())
                            =~= timer_ids(v@).to_set());
                    }
                },
                None => {
                    proof {
                        assert(views(acc@).to_set().union(timer_ids(v@.skip(j as int)).to_set())
                            =~= timer_ids(v@).to_set());
                    }
                },
            }
            i = j;
        }
    }
    proof {
        assert(v@.skip(v.len() as int) =~= Seq::<char>::empty());
        assert(timer_ids(v@.skip(v.len() as int)) =~= Seq::<Seq<char>>::empty());
        assert(views(acc@).to_set() =~= timer_ids(v@).to_set());
    }
    strings_of(&acc)
}

/// The number of leading characters of `s` before the first line feed.
pub open spec fn line_len(s: Seq<char>) -> nat
    decreases s.len(),
{
    if s.len() == 0 || s[0] == '\n' {
        0
    } else {
        1 + line_len(s.drop_first())
    }
}

/// A line is never longer than the text it starts.
pub proof fn lemma_line_len_bound(s: Seq<char>)
    ensures
        line_len(s) <= s.len(),
    decreases s.len(),
{
    if s.len() > 0 && s[0] != '\n' {
        lemma_line_len_bound(s.drop_first());
    }
}

/// Characterizes `line_len` by the position of the first line feed.
pub proof fn lemma_line_len_at(s: Seq<char>, k: int)
    requires
        0 <= k <= s.len(),
        forall|m: int| 0 <= m < k ==> #[trigger] s[m] != '\n',
        k == s.len() || s[k] == '\n',
    ensures
        line_len(s) == k,
    decreases k,
{
    if k > 0 {
        assert forall|m: int| 0 <= m < k - 1 implies #[trigger] s.drop_first()[m] != '\n' by {
            assert(s.drop_first()[m] == s[m + 1]);
        }
        lemma_line_len_at(s.drop_first(), k - 1);
    }
}

/// `s` split at every line feed. (`str::lines` also drops one `\r` before each line feed and
/// the empty piece after a final line feed; every line is trimmed before use, and an empty
/// line names no task, so the names found are the same.)
pub open spec fn lines(s: Seq<char>) -> Seq<Seq<char>>
    decreases s.len(),
{
    proof {
        lemma_line_len_bound(s);
    }
    if line_len(s) == s.len() {
        seq![s]
    } else {
        seq![s.take(line_len(s) as int)] + lines(s.skip(line_len(s) as int + 1))
    }
}

/// `TaskName:`
pub open spec fn task_name_key() -> Seq<char> {
    seq!['T', 'a', 's', 'k', 'N', 'a', 'm', 'e', ':']
}

/// The value of a `TaskName:` line, trimmed.
pub open spec fn task_name_value(line: Seq<char>) -> Seq<char> {
    trim(trim(line).skip(9))
}

/// Whether `line` is a `TaskName:` line naming a task in this tool's `\ccplan\` folder.
pub open spec fn is_task_line(line: Seq<char>) -> bool {
    has_prefix(trim(line), task_name_key()) && has_prefix(task_name_value(line), windows_task_prefix())
}

/// The task id named by a task line.
pub open spec fn task_line_id(line: Seq<char>) -> Seq<char> {
    task_name_value(line).skip(8)
}

/// The task ids named by the lines `ls`, in order.
pub open spec fn task_ids_of(ls: Seq<Seq<char>>) -> Seq<Seq<char>>
    decreases ls.len(),
{
    if ls.len() == 0 {
        seq![]
    } else if is_task_line(ls[0]) {
        seq![task_line_id(ls[0])] + task_ids_of(ls.drop_first())
    } else {
        task_ids_of(ls.drop_first())
    }
}

/// The ids of the `\ccplan\<id>` tasks named on the `TaskName:` lines of `output`, in order.
pub open spec fn task_ids(output: Seq<char>) -> Seq<Seq<char>> {
    task_ids_of(lines(output))
}

proof fn lemma_empty_to_multiset()
    ensures
        Seq::<Seq<char>>::empty().to_multiset() == Multiset::<Seq<char>>::empty(),
{
    broadcast use vstd::seq_lib::group_to_multiset_ensures, vstd::multiset::group_multiset_axioms;

    assert forall|a: Seq<char>| #[trigger] Seq::<Seq<char>>::empty().to_multiset().count(a) == 0 by {
        assert(!Seq::<Seq<char>>::empty().contains(a));
    }
    assert(Seq::<Seq<char>>::empty().to_multiset() =~= Multiset::<Seq<char>>::empty());
}

proof fn lemma_singleton_to_multiset(x: Seq<char>)
    ensures
        seq![x].to_multiset() == Multiset::<Seq<char>>::empty().insert(x),
{
    broadcast use vstd::seq_lib::group_to_multiset_ensures, vstd::multiset::group_multiset_axioms;

    lemma_empty_to_multiset();
    assert(seq![x] =~= Seq::<Seq<char>>::empty().push(x));
    vstd::seq_lib::to_multiset_build(Seq::<Seq<char>>::empty(), x);
}

/// The id of the task named by the line `v[lo..hi]`, if it names one of this tool's tasks.
fn task_id_in(v: &Vec<char>, lo: usize, hi: usize, key: &Vec<char>, folder: &Vec<char>) -> (res:
    Option<Vec<char>>)
    requires
        lo <= hi <= v.len(),
        key@ == task_name_key(),
        folder@ == windows_task_prefix(),
    ensures
        res is Some == is_task_line(v@.subrange(lo as int, hi as int)),
        res matches Some(id) ==> id@ == task_line_id(v@.subrange(lo as int, hi as int)),
{
    let ghost line = v@.subrange(lo as int, hi as int);
    let (a, b) = trim_bounds(v, lo, hi);
    if !starts_with_at(v, a, b, key) {
        return None;
    }
    assert(v@.subrange(a + 9, b as int) =~= trim(line).skip(9));
    let (c, d) = trim_bounds(v, a + 9, b);
    if !starts_with_at(v, c, d, folder) {
        return None;
    }
    let id = slice_chars(v, c + 8, d);
    assert(id@ =~= task_line_id(line));
    Some(id)
}

/// Extracts `\ccplan\<id>` task ids from `schtasks /Query /FO LIST` output: the value of every
/// `TaskName:` line that lies in the `\ccplan\` folder, without that folder, sorted ascending.
pub fn parse_task_names(output: &str) -> (res: Vec<String>)
    ensures
        sorted(string_views(res@)),
        string_views(res@).to_multiset() == task_ids(output@).to_multiset(),
{
    broadcast use vstd::seq_lib::group_to_multiset_ensures, vstd::multiset::group_multiset_axioms;

    let v = chars_of(output);
    proof {
        reveal_strlit("TaskName:");
        reveal_strlit("\\ccplan\\");
    }
    let key = chars_of("TaskName:");
    let folder = chars_of("\\ccplan\\");
    let mut acc: Vec<Vec<char>> = Vec::new();
    let mut i: usize = 0;
    assert(v@.skip(0) =~= v@);
    loop
        invariant
            i <= v.len(),
            v@ == output@,
            key@ == task_name_key(),
            folder@ == windows_task_prefix(),
            sorted(views(acc@)),
            views(acc@).to_multiset().add(task_ids_of(lines(v@.skip(i as int))).to_multiset())
                == task_ids(v@).to_multiset(),
        decreases v.len() - i,
    {
        let mut j = i;
        while j < v.len() && v[j] != '\n'
            invariant
                i <= j <= v.len(),
                forall|m: int| i <= m < j ==> #[trigger] v@[m] != '\n',
            decreases v.len() - j,
        {
            j = j + 1;
        }
        let ghost rest = v@.skip(i as int);
        let ghost line = v@.subrange(i as int, j as int);
        let ghost tail: Seq<Seq<char>> = if j < v.len() {
            lines(v@.skip(j + 1))
        } else {
            seq![]
        };
        proof {
            assert forall|m: int| 0 <= m < j - i implies #[trigger] rest[m] != '\n' by {
                assert(rest[m] == v@[i + m]);
            }
            lemma_line_len_at(rest, j - i);
            if j < v.len() {
                assert(rest.take(j - i) =~= line);
                assert(rest.skip(j - i + 1) =~= v@.skip(j + 1));
            } else {
                assert(rest =~= line);
            }
            assert(lines(rest) == seq![line] + tail);
            assert((seq![line] + tail).drop_first() =~= tail);
        }
        let found = task_id_in(&v, i, j, &key, &folder);
        match found {
            Some(id) => {
                let ghost idv = id@;
                insert_sorted(&mut acc, id);
                proof {
                    assert(task_ids_of(lines(rest)) == seq![idv] + task_ids_of(tail));
                    vstd::seq_lib::lemma_multiset_commutative(seq![idv], task_ids_of(tail));
                    lemma_singleton_to_multiset(idv);
                    assert(views(acc@).to_multiset().add(task_ids_of(tail).to_multiset())
                        =~= task_ids(v@).to_multiset());
                }
            },
            None => {
                proof {
                    assert(task_ids_of(lines(rest)) == task_ids_of(tail));
                }
            },
        }
        if j == v.len() {
            proof {
                assert(task_ids_of(tail) =~= Seq::<Seq<char>>::empty());
                lemma_empty_to_multiset();
                assert(views(acc@).to_multiset() =~= task_ids(v@).to_multiset());
            }
            return strings_of(&acc);
        }
        i = j + 1;
    }
}

} // verus!
