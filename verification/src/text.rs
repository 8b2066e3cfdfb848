//! Character-level helpers shared by the route matcher and the access counter.

use vstd::prelude::*;

verus! {

/// The request path of a request target: everything before the first `?`.
/// A target without a query string is its own path.
pub open spec fn path_of(target: Seq<char>) -> Seq<char>
    decreases target.len(),
{
    if target.len() == 0 || target[0] == '?' {
        Seq::empty()
    } else {
        seq![target[0]] + path_of(target.drop_first())
    }
}

/// A target whose first `i` characters hold no `?` has those characters as
/// the start of its path.
pub proof fn lemma_path_of_split(target: Seq<char>, i: int)
    requires
        0 <= i <= target.len(),
        forall|j: int| 0 <= j < i ==> target[j] != '?',
    ensures
        path_of(target) == target.take(i) + path_of(target.skip(i)),
    decreases i,
{
    if i == 0 {
        assert(target.skip(0) =~= target);
        assert(target.take(0) + path_of(target) =~= path_of(target));
    } else {
        let rest = target.drop_first();
        assert forall|j: int| 0 <= j < i - 1 implies rest[j] != '?' by {
            assert(rest[j] == target[j + 1]);
        }
        lemma_path_of_split(rest, i - 1);
        assert(rest.skip(i - 1) =~= target.skip(i));
        assert(seq![target[0]] + (rest.take(i - 1) + path_of(target.skip(i))) =~= target.take(i)
            + path_of(target.skip(i)));
    }
}

/// The path is the longest start of the target that holds no `?`: it is a
/// prefix, it holds no `?`, and it ends at the end of the target or right
/// before a `?`.
pub proof fn lemma_path_of_is_longest_plain_prefix(target: Seq<char>)
    ensures
        path_of(target).is_prefix_of(target),
        forall|j: int| 0 <= j < path_of(target).len() ==> path_of(target)[j] != '?',
        path_of(target).len() == target.len() || target[path_of(target).len() as int] == '?',
    decreases target.len(),
{
    if target.len() == 0 || target[0] == '?' {
        assert(path_of(target) =~= Seq::<char>::empty());
    } else {
        let rest = target.drop_first();
        lemma_path_of_is_longest_plain_prefix(rest);
        let p = path_of(rest);
        assert(path_of(target) =~= seq![target[0]] + p);
        assert(path_of(target) =~= target.subrange(0, path_of(target).len() as int)) by {
            assert(p =~= rest.subrange(0, p.len() as int));
        }
        if p.len() != rest.len() {
            assert(rest[p.len() as int] == target[p.len() as int + 1]);
        }
    }
}

/// Taking the path of a path changes nothing.
pub proof fn lemma_path_of_idempotent(target: Seq<char>)
    ensures
        path_of(path_of(target)) == path_of(target),
{
    lemma_path_of_is_longest_plain_prefix(target);
    let p = path_of(target);
    lemma_path_of_split(p, p.len() as int);
    assert(p.skip(p.len() as int) =~= Seq::<char>::empty());
    assert(p.take(p.len() as int) =~= p);
    assert(p + Seq::<char>::empty() =~= p);
}

/// The characters of `s`, in order.
pub(crate) fn chars_of(s: &str) -> (chars: Vec<char>)
    ensures
        chars@ == s@,
{
    let mut chars: Vec<char> = Vec::new();
    for c in it: s.chars()
        invariant
            chars@ == it.seq().take(it.index()),
            it.seq() == s@,
    {
        chars.push(c);
    }
    chars
}

/// Where the path of `chars` ends: the index of the first `?`, or the length
/// where there is none.
pub(crate) fn path_end(chars: &Vec<char>) -> (end: usize)
    ensures
        end <= chars@.len(),
        chars@.take(end as int) == path_of(chars@),
{
    let mut end: usize = 0;
    while end < chars.len() && chars[end] != '?'
        invariant
            end <= chars@.len(),
            forall|j: int| 0 <= j < end ==> chars@[j] != '?',
        decreases chars@.len() - end,
    {
        end += 1;
    }
    proof {
        lemma_path_of_split(chars@, end as int);
        let rest = chars@.skip(end as int);
        assert(path_of(rest) =~= Seq::<char>::empty());
        assert(chars@.take(end as int) + Seq::<char>::empty() =~= chars@.take(end as int));
    }
    end
}

/// Whether `prefix` starts the first `end` characters of `chars`.
pub(crate) fn starts_with(chars: &Vec<char>, end: usize, prefix: &Vec<char>) -> (yes: bool)
    requires
        end <= chars@.len(),
    ensures
        yes == prefix@.is_prefix_of(chars@.take(end as int)),
{
    if prefix.len() > end {
        return false;
    }
    let mut i: usize = 0;
    while i < prefix.len()
        invariant
            i <= prefix@.len() <= end <= chars@.len(),
            forall|j: int| 0 <= j < i ==> prefix@[j] == chars@[j],
        decreases prefix@.len() - i,
    {
        if prefix[i] != chars[i] {
            proof {
                let head = chars@.take(end as int);
                assert(head[i as int] == chars@[i as int]);
            }
            return false;
        }
        i += 1;
    }
    proof {
        let head = chars@.take(end as int);
        assert(prefix@ =~= head.subrange(0, prefix@.len() as int));
    }
    true
}

/// The request path of `target`: `target` without its query string.
pub fn request_path(target: &str) -> (path: String)
    ensures
        path@ == path_of(target@),
{
    let chars = chars_of(target);
    let end = path_end(&chars);
    let path = target.substring_char(0, end);
    assert(path@ =~= chars@.take(end as int));
    String::from_str(path)
}

} // verus!
