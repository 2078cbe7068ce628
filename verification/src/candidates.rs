//! The list of known candidates, as kept in SDKMAN's `var/candidates` file:
//! names separated by commas, with white space around them ignored.
use vstd::prelude::*;
use crate::order::string_views;
use crate::versions::comma_joined;

verus! {

/// Unicode's `White_Space` characters.
pub open spec fn is_white_space(c: char) -> bool {
    let n = c as int;
    ||| 0x09 <= n <= 0x0d
    ||| n == 0x20
    ||| n == 0x85
    ||| n == 0xa0
    ||| n == 0x1680
    ||| 0x2000 <= n <= 0x200a
    ||| n == 0x2028
    ||| n == 0x2029
    ||| n == 0x202f
    ||| n == 0x205f
    ||| n == 0x3000
}

/// The text without its leading and trailing white space.
pub open spec fn trimmed(s: Seq<char>) -> Seq<char>
    decreases s.len(),
{
    if s.len() > 0 && is_white_space(s[0]) {
        trimmed(s.drop_first())
    } else if s.len() > 0 && is_white_space(s.last()) {
        trimmed(s.drop_last())
    } else {
        s
    }
}

/// The pieces of a text between its commas: one more piece than there are
/// commas; pieces may be empty.
pub open spec fn comma_fields(s: Seq<char>) -> Seq<Seq<char>>
    decreases s.len(),
{
    if s.len() == 0 {
        seq![Seq::empty()]
    } else {
        let rest = comma_fields(s.drop_last());
        if s.last() == ',' {
            rest.push(Seq::empty())
        } else {
            rest.update(rest.len() - 1, rest.last().push(s.last()))
        }
    }
}

/// There is always at least one piece.
pub proof fn lemma_comma_fields_nonempty(s: Seq<char>)
    ensures
        comma_fields(s).len() >= 1,
    decreases s.len(),
{
    if s.len() > 0 {
        lemma_comma_fields_nonempty(s.drop_last());
    }
}

/// Appending text without commas extends the last piece.
pub proof fn lemma_comma_fields_extend(s: Seq<char>, t: Seq<char>)
    requires
        !t.contains(','),
    ensures
        comma_fields(s + t) == comma_fields(s).update(
            comma_fields(s).len() - 1,
            comma_fields(s).last() + t,
        ),
    decreases t.len(),
{
    lemma_comma_fields_nonempty(s);
    let f = comma_fields(s);
    if t.len() == 0 {
        assert(s + t =~= s);
        assert(f.last() + t =~= f.last());
        assert(f.update(f.len() - 1, f.last()) =~= f);
    } else {
        let t0 = t.drop_last();
        assert(!t0.contains(',')) by {
            if t0.contains(',') {
                let k = choose|k: int| 0 <= k < t0.len() && t0[k] == ',';
                assert(t[k] == ',');
            }
        }
        assert(t[t.len() - 1] != ',');
        lemma_comma_fields_extend(s, t0);
        lemma_comma_fields_nonempty(s + t0);
        assert((s + t).drop_last() =~= s + t0);
        assert((s + t).last() == t.last());
        assert(f.last() + t =~= (f.last() + t0).push(t.last()));
        assert(comma_fields(s + t) =~= f.update(f.len() - 1, f.last() + t));
    }
}

/// Joining names with commas and splitting the text at its commas gives the
/// names back, when there is at least one name and none holds a comma: the
/// comma-separated list of installed versions sent to the candidates service
/// names each version.
pub proof fn law_split_undoes_join(names: Seq<Seq<char>>)
    requires
        names.len() >= 1,
        forall|i: int| 0 <= i < names.len() ==> !(#[trigger] names[i]).contains(','),
    ensures
        comma_fields(comma_joined(names)) == names,
    decreases names.len(),
{
    if names.len() == 1 {
        let e = Seq::<char>::empty();
        assert(e + names[0] =~= names[0]);
        lemma_comma_fields_extend(e, names[0]);
        assert(comma_fields(e) =~= seq![e]);
        assert(e + names[0] =~= names[0]);
        assert(comma_fields(names[0]) =~= seq![names[0]]);
        assert(names =~= seq![names[0]]);
    } else {
        let init = names.drop_last();
        law_split_undoes_join(init);
        let j = comma_joined(init);
        let withc = j + ","@;
        reveal_strlit(",");
        assert(withc.drop_last() =~= j);
        assert(withc.last() == ',');
        assert(comma_fields(withc) == comma_fields(j).push(Seq::empty()));
        lemma_comma_fields_extend(withc, names.last());
        assert(comma_joined(names) == withc + names.last());
        assert(comma_fields(comma_joined(names)) =~= init.push(names.last()));
        assert(names =~= init.push(names.last()));
    }
}

/// Every character of `s` in `lo..hi` is white space.
pub open spec fn all_white(s: Seq<char>, lo: int, hi: int) -> bool {
    forall|k: int| lo <= k < hi ==> is_white_space(#[trigger] s[k])
}

/// `s[i..j]` is `s` trimmed: white space before and after it, none at its ends.
pub open spec fn trim_bounds(s: Seq<char>, i: int, j: int) -> bool {
    &&& 0 <= i <= j <= s.len()
    &&& trimmed(s) == s.subrange(i, j)
    &&& all_white(s, 0, i)
    &&& all_white(s, j, s.len() as int)
    &&& i < j ==> !is_white_space(s[i]) && !is_white_space(s[j - 1])
}

proof fn lemma_trim_bounds(s: Seq<char>) -> (ij: (int, int))
    ensures
        trim_bounds(s, ij.0, ij.1),
    decreases s.len(),
{
    if s.len() > 0 && is_white_space(s[0]) {
        let r = s.drop_first();
        let (i, j) = lemma_trim_bounds(r);
        assert(r.subrange(i, j) =~= s.subrange(i + 1, j + 1));
        assert forall|k: int| 0 <= k < i + 1 implies is_white_space(#[trigger] s[k]) by {
            if k > 0 {
                assert(s[k] == r[k - 1]);
            }
        }
        assert forall|k: int| j + 1 <= k < s.len() implies is_white_space(#[trigger] s[k]) by {
            assert(s[k] == r[k - 1]);
        }
        if i < j {
            assert(s[i + 1] == r[i] && s[j] == r[j - 1]);
        }
        (i + 1, j + 1)
    } else if s.len() > 0 && is_white_space(s.last()) {
        let r = s.drop_last();
        let (i, j) = lemma_trim_bounds(r);
        assert(r.subrange(i, j) =~= s.subrange(i, j));
        assert forall|k: int| 0 <= k < i implies is_white_space(#[trigger] s[k]) by {
            assert(s[k] == r[k]);
        }
        assert forall|k: int| j <= k < s.len() implies is_white_space(#[trigger] s[k]) by {
            if k < s.len() - 1 {
                assert(s[k] == r[k]);
            }
        }
        if i < j {
            assert(s[i] == r[i] && s[j - 1] == r[j - 1]);
        }
        (i, j)
    } else {
        assert(s.subrange(0, s.len() as int) =~= s);
        (0, s.len() as int)
    }
}

/// Trimming removes white space at both ends and nothing else: the result is
/// a contiguous part of the text, everything before and after it is white
/// space, and it neither starts nor ends with white space.
pub proof fn law_trimmed_shape(s: Seq<char>)
    ensures
        exists|i: int, j: int|
            0 <= i <= j <= s.len() && trimmed(s) == s.subrange(i, j) && (forall|k: int|
                0 <= k < i ==> is_white_space(#[trigger] s[k])) && (forall|k: int|
                j <= k < s.len() ==> is_white_space(#[trigger] s[k])) && (i < j ==> !is_white_space(s[i])
                && !is_white_space(s[j - 1])),
{
    let (i, j) = lemma_trim_bounds(s);
    assert(trim_bounds(s, i, j));
}

/// A text that neither starts nor ends with white space is its own trimming.
pub proof fn lemma_trimmed_of_trimmed_ends(s: Seq<char>)
    requires
        s.len() > 0 ==> !is_white_space(s[0]) && !is_white_space(s.last()),
    ensures
        trimmed(s) == s,
{
}

/// Splitting at commas loses nothing: joining the pieces with commas gives the
/// text back, and no piece holds a comma.
pub proof fn law_comma_fields_shape(s: Seq<char>)
    ensures
        comma_joined(comma_fields(s)) == s,
        forall|i: int| 0 <= i < comma_fields(s).len() ==> !(#[trigger] comma_fields(s)[i]).contains(','),
    decreases s.len(),
{
    reveal_strlit(",");
    if s.len() == 0 {
        assert(comma_fields(s) =~= seq![Seq::<char>::empty()]);
        assert(comma_joined(comma_fields(s)) =~= s);
    } else {
        let r = s.drop_last();
        law_comma_fields_shape(r);
        lemma_comma_fields_nonempty(r);
        let rest = comma_fields(r);
        let c = s.last();
        assert(s =~= r.push(c));
        if c == ',' {
            let f = rest.push(Seq::empty());
            assert(f.drop_last() =~= rest);
            assert(comma_joined(f) == comma_joined(rest) + ","@ + Seq::<char>::empty());
            assert(comma_joined(f) =~= s);
            assert forall|i: int| 0 <= i < f.len() implies !(#[trigger] f[i]).contains(',') by {
                if i < rest.len() {
                    assert(f[i] == rest[i]);
                }
            }
        } else {
            let n = rest.len();
            let l = rest.last();
            let f = rest.update(n - 1, l.push(c));
            assert(f.drop_last() =~= rest.drop_last());
            assert(f.last() == l.push(c));
            if n == 1 {
                assert(comma_joined(rest) == rest[0]);
                assert(comma_joined(f) == f[0]);
                assert(comma_joined(f) =~= s);
            } else {
                assert(comma_joined(rest) == comma_joined(rest.drop_last()) + ","@ + l);
                assert(comma_joined(f) == comma_joined(rest.drop_last()) + ","@ + l.push(c));
                assert(comma_joined(f) =~= s);
            }
            assert forall|i: int| 0 <= i < f.len() implies !(#[trigger] f[i]).contains(',') by {
                if i < n - 1 {
                    assert(f[i] == rest[i]);
                } else {
                    assert(!rest[n - 1].contains(','));
                    if l.push(c).contains(',') {
                        let k = choose|k: int| 0 <= k < l.push(c).len() && l.push(c)[k] == ',';
                        assert(l[k] == ',');
                    }
                }
            }
        }
    }
}

/// Each known candidate is exactly one comma-separated piece of the text with
/// its surrounding white space removed, one candidate per piece, in order.
pub proof fn law_candidates_are_trimmed_pieces(content: Seq<char>)
    ensures
        candidate_names(content).len() == comma_fields(content).len(),
        forall|i: int|
            0 <= i < comma_fields(content).len() ==> #[trigger] candidate_names(content)[i] == trimmed(
                comma_fields(content)[i],
            ),
{
}

/// Writing names separated by commas and reading them back gives the names,
/// when there is at least one, none holds a comma, and none starts or ends
/// with white space; in particular such a name alone reads back whole.
pub proof fn law_parse_undoes_join(names: Seq<Seq<char>>)
    requires
        names.len() >= 1,
        forall|i: int| 0 <= i < names.len() ==> !(#[trigger] names[i]).contains(','),
        forall|i: int|
            0 <= i < names.len() && names[i].len() > 0 ==> !is_white_space(#[trigger] names[i][0])
                && !is_white_space(names[i].last()),
    ensures
        candidate_names(comma_joined(names)) == names,
{
    law_split_undoes_join(names);
    assert forall|i: int| 0 <= i < names.len() implies trimmed(#[trigger] names[i]) == names[i] by {
        lemma_trimmed_of_trimmed_ends(names[i]);
    }
    assert(candidate_names(comma_joined(names)) =~= names);
}

/// The candidate names a `var/candidates` text holds: its comma-separated
/// pieces, each without surrounding white space.
pub open spec fn candidate_names(content: Seq<char>) -> Seq<Seq<char>> {
    comma_fields(content).map_values(|f: Seq<char>| trimmed(f))
}

/// Whether `c` is a white-space character.
pub fn is_white_space_char(c: char) -> (r: bool)
    ensures
        r == is_white_space(c),
{
    let n = c as u32;
    (0x09 <= n && n <= 0x0d) || n == 0x20 || n == 0x85 || n == 0xa0 || n == 0x1680 || (0x2000 <= n
        && n <= 0x200a) || n == 0x2028 || n == 0x2029 || n == 0x202f || n == 0x205f || n == 0x3000
}

/// The text without its leading and trailing white space.
pub fn trim_white_space(s: &str) -> (t: String)
    ensures
        t@ == trimmed(s@),
{
    let len = s.unicode_len();
    let mut i: usize = 0;
    let mut j: usize = len;
    assert(s@.subrange(0, len as int) =~= s@);
    while i < j && is_white_space_char(s.get_char(i))
        invariant
            len == s@.len(),
            i <= j,
            j == len,
            trimmed(s@) == trimmed(s@.subrange(i as int, j as int)),
        decreases j - i,
    {
        assert(s@.subrange(i as int, j as int).drop_first() =~= s@.subrange(i + 1, j as int));
        i = i + 1;
    }
    while j > i && is_white_space_char(s.get_char(j - 1))
        invariant
            len == s@.len(),
            i <= j <= len,
            i < j ==> !is_white_space(s@[i as int]),
            trimmed(s@) == trimmed(s@.subrange(i as int, j as int)),
        decreases j - i,
    {
        let ghost sub = s@.subrange(i as int, j as int);
        assert(sub[0] == s@[i as int]);
        assert(sub.last() == s@[j - 1]);
        assert(sub.drop_last() =~= s@.subrange(i as int, j - 1));
        j = j - 1;
    }
    proof {
        let sub = s@.subrange(i as int, j as int);
        if i < j {
            assert(sub[0] == s@[i as int]);
            assert(sub.last() == s@[j - 1]);
        }
    }
    String::from_str(s.substring_char(i, j))
}

/// The candidate names a `var/candidates` text holds, in order.
pub fn parse_candidates(content: &str) -> (names: Vec<String>)
    ensures
        string_views(names@) == candidate_names(content@),
{
    let len = content.unicode_len();
    let mut names: Vec<String> = Vec::new();
    let ghost mut done: Seq<Seq<char>> = Seq::empty();
    let mut start: usize = 0;
    let mut i: usize = 0;
    assert(content@.take(0) =~= Seq::<char>::empty());
    assert(comma_fields(Seq::<char>::empty()) =~= done.push(content@.subrange(0, 0)));
    while i < len
        invariant
            len == content@.len(),
            start <= i <= len,
            comma_fields(content@.take(i as int)) == done.push(content@.subrange(start as int, i as int)),
            string_views(names@) == done.map_values(|f: Seq<char>| trimmed(f)),
        decreases len - i,
    {
        let ghost prefix = content@.take(i + 1);
        assert(prefix.drop_last() =~= content@.take(i as int));
        assert(prefix.last() == content@[i as int]);
        let c = content.get_char(i);
        if c == ',' {
            let piece = content.substring_char(start, i);
            let field = trim_white_space(piece);
            let ghost old_done = done;
            let ghost old_views = string_views(names@);
            proof {
                done = done.push(piece@);
            }
            names.push(field);
            assert(string_views(names@) =~= old_views.push(trimmed(piece@)));
            assert(done.map_values(|f: Seq<char>| trimmed(f)) =~= old_done.map_values(
                |f: Seq<char>| trimmed(f),
            ).push(trimmed(piece@)));
            start = i + 1;
            assert(content@.subrange(start as int, i + 1) =~= Seq::<char>::empty());
            assert(comma_fields(prefix) =~= done.push(content@.subrange(start as int, i + 1)));
        } else {
            assert(content@.subrange(start as int, i + 1) =~= content@.subrange(
                start as int,
                i as int,
            ).push(c));
            assert(comma_fields(prefix) =~= done.push(content@.subrange(start as int, i + 1)));
        }
        i = i + 1;
    }
    assert(content@.take(len as int) =~= content@);
    let piece = content.substring_char(start, len);
    let last = trim_white_space(piece);
    let ghost old_done = done;
    let ghost old_views = string_views(names@);
    names.push(last);
    proof {
        done = done.push(piece@);
    }
    assert(string_views(names@) =~= old_views.push(trimmed(piece@)));
    assert(done.map_values(|f: Seq<char>| trimmed(f)) =~= old_done.map_values(
        |f: Seq<char>| trimmed(f),
    ).push(trimmed(piece@)));
    names
}

} // verus!
