use vstd::prelude::*;

use crate::model::Project;
use crate::text::{chars_equal, chars_of, decimal_string, decimal_text, digit_char, owned, push_str};

verus! {

/// `prefix` followed by the decimal digits of `i`.
pub open spec fn numbered(prefix: Seq<char>, i: nat) -> Seq<char> {
    prefix + decimal_text(i)
}

/// The character sequences of a list of character vectors.
pub open spec fn id_views(v: Seq<Vec<char>>) -> Seq<Seq<char>> {
    v.map_values(|x: Vec<char>| x@)
}

/// `i` is the first number from `start` whose numbered name is not taken.
pub open spec fn first_free(taken: Set<Seq<char>>, prefix: Seq<char>, start: nat, i: nat) -> bool {
    &&& start <= i
    &&& !taken.contains(numbered(prefix, i))
    &&& forall|j: nat| start <= j < i ==> taken.contains(#[trigger] numbered(prefix, j))
}

proof fn lemma_digit_injective(a: nat, b: nat)
    requires
        a < 10,
        b < 10,
        digit_char(a) == digit_char(b),
    ensures
        a == b,
{
}

proof fn lemma_decimal_len(n: nat)
    ensures
        decimal_text(n).len() >= 1,
        n >= 10 ==> decimal_text(n).len() >= 2,
    decreases n,
{
    if n >= 10 {
        lemma_decimal_len(n / 10);
    }
}

/// Different numbers have different decimal renderings.
pub proof fn lemma_decimal_injective(a: nat, b: nat)
    requires
        decimal_text(a) == decimal_text(b),
    ensures
        a == b,
    decreases a,
{
    lemma_decimal_len(a);
    lemma_decimal_len(b);
    if a < 10 && b < 10 {
        assert(decimal_text(a) == seq![digit_char(a)]);
        assert(decimal_text(b) == seq![digit_char(b)]);
        assert(seq![digit_char(a)][0] == digit_char(a));
        assert(seq![digit_char(b)][0] == digit_char(b));
        assert(decimal_text(a)[0] == decimal_text(b)[0]);
        lemma_digit_injective(a, b);
    } else if a >= 10 && b >= 10 {
        let da = decimal_text(a);
        let db = decimal_text(b);
        assert(da.last() == db.last());
        lemma_digit_injective(a % 10, b % 10);
        assert(da.drop_last() == db.drop_last());
        assert(da.drop_last() =~= decimal_text(a / 10));
        assert(db.drop_last() =~= decimal_text(b / 10));
        lemma_decimal_injective(a / 10, b / 10);
    } else {
        assert(decimal_text(a).len() == decimal_text(b).len());
    }
}

/// The numbered names of `[start, end)` are `end - start` different names.
proof fn lemma_numbered_count(prefix: Seq<char>, start: nat, end: nat)
    requires
        start <= end,
    ensures
        Set::new(|s: Seq<char>| exists|j: nat| start <= j < end && s == numbered(prefix, j)).finite(),
        Set::new(|s: Seq<char>| exists|j: nat| start <= j < end && s == numbered(prefix, j)).len() == end - start,
{
    let names = Set::new(|s: Seq<char>| exists|j: nat| start <= j < end && s == numbered(prefix, j));
    let range = vstd::set_lib::set_int_range(start as int, end as int);
    let f = |j: int| numbered(prefix, j as nat);
    assert(vstd::relations::injective_on(f, range)) by {
        assert forall|a: int, b: int| range.contains(a) && range.contains(b) && #[trigger] f(a) == #[trigger] f(b) implies a == b by {
            let na = numbered(prefix, a as nat);
            let nb = numbered(prefix, b as nat);
            assert(na.subrange(prefix.len() as int, na.len() as int) =~= decimal_text(a as nat));
            assert(nb.subrange(prefix.len() as int, nb.len() as int) =~= decimal_text(b as nat));
            lemma_decimal_injective(a as nat, b as nat);
        }
    }
    vstd::set_lib::lemma_int_range(start as int, end as int);
    assert(range.map(f) =~= names) by {
        assert forall|s: Seq<char>| names.contains(s) implies range.map(f).contains(s) by {
            let j = choose|j: nat| start <= j < end && s == numbered(prefix, j);
            assert(range.contains(j as int) && f(j as int) == s);
        }
    }
    vstd::set_lib::lemma_map_size(range, names, f);
}

/// The first numbered name from `start` that `taken` does not hold, with its
/// number.
pub fn first_free_numbered(taken: &Vec<Vec<char>>, prefix: &str, start: u64) -> (r: (String, u64))
    requires
        start + taken@.len() + 1 <= u64::MAX,
    ensures
        first_free(id_views(taken@).to_set(), prefix@, start as nat, r.1 as nat),
        r.0@ == numbered(prefix@, r.1 as nat),
{
    let ghost ids = id_views(taken@);
    let ghost set = ids.to_set();
    let mut i: u64 = start;
    proof {
        ids.lemma_cardinality_of_set();
    }
    loop
        invariant
            ids == id_views(taken@),
            set == ids.to_set(),
            set.finite(),
            set.len() <= ids.len(),
            ids.len() == taken@.len(),
            start <= i <= start + taken@.len() + 1,
            start + taken@.len() + 1 <= u64::MAX,
            forall|j: nat| start <= j < i ==> set.contains(#[trigger] numbered(prefix@, j)),
        decreases start + taken@.len() + 1 - i,
    {
        let mut candidate = owned(prefix);
        push_str(&mut candidate, decimal_string(i).as_str());
        let chars = chars_of(candidate.as_str());
        let mut k: usize = 0;
        let mut found = false;
        while k < taken.len()
            invariant
                ids == id_views(taken@),
                chars@ == numbered(prefix@, i as nat),
                k <= taken@.len(),
                found ==> set.contains(chars@),
                set == ids.to_set(),
                !found ==> forall|j: int| 0 <= j < k ==> ids[j] != chars@,
            decreases taken.len() - k,
        {
            if chars_equal(&taken[k], &chars) {
                proof {
                    assert(ids[k as int] == chars@);
                    assert(ids.contains(chars@));
                }
                found = true;
            }
            k += 1;
        }
        if !found {
            proof {
                assert(!ids.contains(chars@));
            }
            return (candidate, i);
        }
        proof {
            let names = Set::new(|s: Seq<char>| exists|j: nat| start <= j < i + 1 && s == numbered(prefix@, j));
            lemma_numbered_count(prefix@, start as nat, (i + 1) as nat);
            assert(names.subset_of(set)) by {
                assert forall|s: Seq<char>| names.contains(s) implies set.contains(s) by {
                    let j = choose|j: nat| start <= j < i + 1 && s == numbered(prefix@, j);
                    if j < i {
                        assert(set.contains(numbered(prefix@, j)));
                    }
                }
            }
            vstd::set_lib::lemma_len_subset(names, set);
        }
        i = i + 1;
    }
}

/// The IDs of the project's styles.
pub open spec fn style_id_set(p: Project) -> Set<Seq<char>> {
    p.styles@.map_values(|s: crate::model::TerminalStyle| s.id@).to_set()
}

/// The frame has the ID `s`.
pub open spec fn frame_has_id(f: crate::model::Frame, s: Seq<char>) -> bool {
    f.id matches Some(id) && id@ == s
}

/// The IDs the project's frames have.
pub open spec fn frame_id_set(p: Project) -> Set<Seq<char>> {
    Set::new(|s: Seq<char>| exists|i: int| 0 <= i < p.frames@.len() && frame_has_id(#[trigger] p.frames@[i], s))
}

fn style_id_list(project: &Project) -> (r: Vec<Vec<char>>)
    ensures
        id_views(r@).to_set() == style_id_set(*project),
        r@.len() == project.styles@.len(),
{
    let mut out: Vec<Vec<char>> = Vec::new();
    let mut i: usize = 0;
    while i < project.styles.len()
        invariant
            i <= project.styles@.len(),
            out@.len() == i,
            forall|j: int| 0 <= j < i ==> (#[trigger] out@[j])@ == project.styles@[j].id@,
        decreases project.styles.len() - i,
    {
        out.push(chars_of(project.styles[i].id.as_str()));
        i += 1;
    }
    proof {
        assert(id_views(out@) =~= project.styles@.map_values(|s: crate::model::TerminalStyle| s.id@));
    }
    out
}

fn frame_id_list(project: &Project) -> (r: Vec<Vec<char>>)
    ensures
        id_views(r@).to_set() == frame_id_set(*project),
        r@.len() <= project.frames@.len(),
{
    let mut out: Vec<Vec<char>> = Vec::new();
    let mut i: usize = 0;
    while i < project.frames.len()
        invariant
            i <= project.frames@.len(),
            out@.len() <= i,
            forall|s: Seq<char>| #[trigger] id_views(out@).contains(s) <==> exists|j: int| 0 <= j < i
                && frame_has_id(#[trigger] project.frames@[j], s),
        decreases project.frames.len() - i,
    {
        let ghost before = id_views(out@);
        match &project.frames[i].id {
            Some(id) => {
                let chars = chars_of(id.as_str());
                out.push(chars);
                proof {
                    assert(id_views(out@) =~= before.push(id@));
                }
            },
            None => {
                proof {
                    assert(id_views(out@) =~= before);
                }
            },
        }
        proof {
            assert forall|s: Seq<char>| #[trigger] id_views(out@).contains(s) <==> exists|j: int| 0 <= j < i + 1
                && frame_has_id(#[trigger] project.frames@[j], s) by {
                let now = id_views(out@);
                if frame_has_id(project.frames@[i as int], s) {
                    assert(now[now.len() - 1] == s);
                }
                if now.contains(s) && !before.contains(s) {
                    let k = choose|k: int| 0 <= k < now.len() && now[k] == s;
                    if k < before.len() {
                        assert(before[k] == s);
                    }
                }
                if before.contains(s) {
                    let k = choose|k: int| 0 <= k < before.len() && before[k] == s;
                    assert(now[k] == s);
                }
            }
        }
        i += 1;
    }
    proof {
        assert(id_views(out@).to_set() =~= frame_id_set(*project));
    }
    out
}

/// The first `style-N` ID, counting from one, that no style has.
pub fn next_style_id(project: &Project) -> (r: String)
    requires
        project.styles@.len() < u64::MAX - 2,
    ensures
        exists|i: nat| #[trigger] first_free(style_id_set(*project), "style-"@, 1, i) && r@ == numbered("style-"@, i),
{
    let ids = style_id_list(project);
    let (name, i) = first_free_numbered(&ids, "style-", 1);
    proof {
        assert(first_free(style_id_set(*project), "style-"@, 1, i as nat));
    }
    name
}

/// The first `frame-N` ID, counting from one, that no frame has.
pub fn next_frame_id(project: &Project) -> (r: String)
    requires
        project.frames@.len() < u64::MAX - 2,
    ensures
        exists|i: nat| #[trigger] first_free(frame_id_set(*project), "frame-"@, 1, i) && r@ == numbered("frame-"@, i),
{
    let ids = frame_id_list(project);
    let (name, i) = first_free_numbered(&ids, "frame-", 1);
    proof {
        assert(first_free(frame_id_set(*project), "frame-"@, 1, i as nat));
    }
    name
}

/// `base` when no style has it as ID, else the first free `base-N`,
/// counting from two.
pub fn unique_style_id(project: &Project, base: &str) -> (r: String)
    requires
        project.styles@.len() < u64::MAX - 3,
    ensures
        !style_id_set(*project).contains(base@) ==> r@ == base@,
        style_id_set(*project).contains(base@) ==> exists|i: nat| #[trigger] first_free(
            style_id_set(*project),
            base@ + "-"@,
            2,
            i,
        ) && r@ == numbered(base@ + "-"@, i),
{
    let ids = style_id_list(project);
    let base_chars = chars_of(base);
    let mut k: usize = 0;
    let ghost view = id_views(ids@);
    while k < ids.len()
        invariant
            k <= ids@.len(),
            view == id_views(ids@),
            view.to_set() == style_id_set(*project),
            ids@.len() == project.styles@.len(),
            project.styles@.len() < u64::MAX - 3,
            base_chars@ == base@,
            forall|j: int| 0 <= j < k ==> view[j] != base@,
        decreases ids.len() - k,
    {
        if chars_equal(&ids[k], &base_chars) {
            let mut prefix = owned(base);
            push_str(&mut prefix, "-");
            let (name, i) = first_free_numbered(&ids, prefix.as_str(), 2);
            proof {
                assert(view[k as int] == base@);
                assert(view.contains(base@));
                assert(view.to_set().contains(base@));
                assert(prefix@ == base@ + "-"@);
                assert(first_free(style_id_set(*project), base@ + "-"@, 2, i as nat));
            }
            return name;
        }
        k += 1;
    }
    proof {
        assert(!view.contains(base@));
    }
    owned(base)
}

} // verus!
