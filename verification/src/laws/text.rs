//! What holds of the functions on texts and on maps keyed by names.

use crate::name_map::{ascending, map_of, NameMap};
use crate::text::{
    chars_of, is_white_space, join, join3, same_text, starts_with, text_lt, text_lt_irreflexive, text_order, trim_end,
    trim_end_of, trim_start, trimmed_end, trimmed_end_of, trimmed_start, white_space, TextOrder,
};
use vstd::prelude::*;

verus! {

/// Two texts stand in the order of the first characters in which they differ.
pub proof fn first_difference_decides(a: Seq<char>, b: Seq<char>, i: int)
    requires
        0 <= i < a.len(),
        i < b.len(),
        forall|j: int| 0 <= j < i ==> a[j] == b[j],
        a[i] != b[i],
    ensures
        text_lt(a, b) <==> (a[i] as int) < (b[i] as int),
    decreases i,
{
    if i > 0 {
        assert(a[0] == b[0]);
        first_difference_decides(a.drop_first(), b.drop_first(), i - 1);
    }
}

/// A text comes before every longer one that begins with it, and never after.
pub proof fn beginning_comes_first(a: Seq<char>, rest: Seq<char>)
    requires
        rest.len() > 0,
    ensures
        text_lt(a, a + rest),
        !text_lt(a + rest, a),
    decreases a.len(),
{
    if a.len() > 0 {
        assert((a + rest).drop_first() =~= a.drop_first() + rest);
        beginning_comes_first(a.drop_first(), rest);
    }
}

/// Trimming the front drops the white space there and stops at the first
/// character that is none.
pub proof fn front_is_trimmed(s: Seq<char>, k: int)
    requires
        0 <= k <= s.len(),
        forall|j: int| 0 <= j < k ==> white_space(#[trigger] s[j]),
        k < s.len() ==> !white_space(s[k]),
    ensures
        trimmed_start(s) == s.skip(k),
    decreases k,
{
    if k > 0 {
        let t = s.drop_first();
        assert forall|j: int| 0 <= j < k - 1 implies white_space(#[trigger] t[j]) by {
            assert(t[j] == s[j + 1]);
        }
        front_is_trimmed(t, k - 1);
        assert(white_space(s[0]));
        assert(t.skip(k - 1) =~= s.skip(k));
    } else {
        assert(s.skip(0) =~= s);
    }
}

/// Trimming the end drops the white space there and stops at the last character
/// that is none.
pub proof fn end_is_trimmed(s: Seq<char>, k: int)
    requires
        0 <= k <= s.len(),
        forall|j: int| k <= j < s.len() ==> white_space(#[trigger] s[j]),
        k > 0 ==> !white_space(s[k - 1]),
    ensures
        trimmed_end(s) == s.take(k),
    decreases s.len() - k,
{
    if k < s.len() {
        let t = s.drop_last();
        assert forall|j: int| k <= j < t.len() implies white_space(#[trigger] t[j]) by {
            assert(t[j] == s[j]);
        }
        end_is_trimmed(t, k);
        assert(white_space(s[s.len() - 1]));
        assert(t.take(k) =~= s.take(k));
    } else {
        assert(s.take(k) =~= s);
    }
}

/// Trimming a character off the end drops as many of it as stand there.
pub proof fn end_is_trimmed_of(s: Seq<char>, c: char, k: int)
    requires
        0 <= k <= s.len(),
        forall|j: int| k <= j < s.len() ==> #[trigger] s[j] == c,
        k > 0 ==> s[k - 1] != c,
    ensures
        trimmed_end_of(s, c) == s.take(k),
    decreases s.len() - k,
{
    if k < s.len() {
        let t = s.drop_last();
        assert forall|j: int| k <= j < t.len() implies #[trigger] t[j] == c by {
            assert(t[j] == s[j]);
        }
        end_is_trimmed_of(t, c, k);
        assert(s[s.len() - 1] == c);
        assert(t.take(k) =~= s.take(k));
    } else {
        assert(s.take(k) =~= s);
    }
}

/// White space is what Unicode calls so, and nothing else.
pub proof fn white_space_is_that_of_unicode(c: char)
    ensures
        white_space(c) <==> seq![
            0x09int, 0x0a, 0x0b, 0x0c, 0x0d, 0x20, 0x85, 0xa0, 0x1680, 0x2000, 0x2001, 0x2002,
            0x2003, 0x2004, 0x2005, 0x2006, 0x2007, 0x2008, 0x2009, 0x200a, 0x2028, 0x2029, 0x202f,
            0x205f, 0x3000,
        ].contains(c as int),
{
    let codes = seq![
        0x09int, 0x0a, 0x0b, 0x0c, 0x0d, 0x20, 0x85, 0xa0, 0x1680, 0x2000, 0x2001, 0x2002, 0x2003,
        0x2004, 0x2005, 0x2006, 0x2007, 0x2008, 0x2009, 0x200a, 0x2028, 0x2029, 0x202f, 0x205f,
        0x3000,
    ];
    assert(codes[0] == 0x09 && codes[1] == 0x0a && codes[2] == 0x0b && codes[3] == 0x0c && codes[4]
        == 0x0d && codes[5] == 0x20 && codes[6] == 0x85 && codes[7] == 0xa0 && codes[8] == 0x1680);
    assert(codes[9] == 0x2000 && codes[10] == 0x2001 && codes[11] == 0x2002 && codes[12] == 0x2003
        && codes[13] == 0x2004 && codes[14] == 0x2005 && codes[15] == 0x2006 && codes[16]
        == 0x2007 && codes[17] == 0x2008);
    assert(codes[18] == 0x2009 && codes[19] == 0x200a && codes[20] == 0x2028 && codes[21] == 0x2029
        && codes[22] == 0x202f && codes[23] == 0x205f && codes[24] == 0x3000);
}

/// What the functions on texts return.
pub proof fn text_functions(
    a: &str,
    b: &str,
    c: &str,
    joined: String,
    joined3: String,
    same: bool,
    starts: bool,
    order: TextOrder,
    one: char,
    white: bool,
    chars: Vec<char>,
)
    requires
        call_ensures(is_white_space, (one,), white),
        call_ensures(chars_of, (a,), chars),
        call_ensures(join, (a, b), joined),
        call_ensures(join3, (a, b, c), joined3),
        call_ensures(same_text, (a, b), same),
        call_ensures(starts_with, (a, b), starts),
        call_ensures(text_order, (a, b), order),
    ensures
        white <==> white_space(one),
        chars@ == a@,
        joined@ == a@ + b@,
        joined3@ == a@ + b@ + c@,
        same <==> a@ == b@,
        starts <==> exists|rest: Seq<char>| a@ == #[trigger] (b@ + rest),
        order == TextOrder::Same <==> a@ == b@,
        order == TextOrder::Before <==> text_lt(a@, b@),
        order == TextOrder::After <==> text_lt(b@, a@),
{
    if starts {
        assert(a@ =~= b@ + a@.skip(b@.len() as int));
    }
    if exists|rest: Seq<char>| a@ == #[trigger] (b@ + rest) {
        let rest = choose|rest: Seq<char>| a@ == #[trigger] (b@ + rest);
        assert(b@ =~= a@.take(b@.len() as int));
    }
}

/// What the functions that trim a text return.
pub proof fn trim_functions(
    text: &str,
    c: char,
    start: &str,
    end: &str,
    end_of: &str,
    i: int,
    j: int,
    k: int,
)
    requires
        call_ensures(trim_start, (text,), start),
        call_ensures(trim_end, (text,), end),
        call_ensures(trim_end_of, (text, c), end_of),
        0 <= i <= text@.len(),
        forall|n: int| 0 <= n < i ==> white_space(#[trigger] text@[n]),
        i < text@.len() ==> !white_space(text@[i]),
        0 <= j <= text@.len(),
        forall|n: int| j <= n < text@.len() ==> white_space(#[trigger] text@[n]),
        j > 0 ==> !white_space(text@[j - 1]),
        0 <= k <= text@.len(),
        forall|n: int| k <= n < text@.len() ==> #[trigger] text@[n] == c,
        k > 0 ==> text@[k - 1] != c,
    ensures
        start@ == text@.skip(i),
        end@ == text@.take(j),
        end_of@ == text@.take(k),
{
    front_is_trimmed(text@, i);
    end_is_trimmed(text@, j);
    end_is_trimmed_of(text@, c, k);
}

/// An ascending list holds each text once, every one before those behind it.
pub proof fn ascending_means(s: Seq<Seq<char>>)
    ensures
        ascending(s) <==> forall|i: int, j: int|
            0 <= i < j < s.len() ==> text_lt(#[trigger] s[i], #[trigger] s[j]),
        ascending(s) ==> s.no_duplicates(),
{
    if ascending(s) {
        assert forall|i: int, j: int|
            0 <= i < s.len() && 0 <= j < s.len() && i != j implies s[i] != s[j] by {
            text_lt_irreflexive(s[i]);
            if i < j {
                assert(text_lt(s[i], s[j]));
            } else {
                assert(text_lt(s[j], s[i]));
            }
        }
    }
}

/// A map made of entries has the names of the entries, each with the value of
/// the last entry of that name.
pub proof fn last_entry_counts<V>(entries: Seq<(String, V)>, i: int)
    requires
        0 <= i < entries.len(),
        forall|j: int| i < j < entries.len() ==> (#[trigger] entries[j]).0@ != entries[i].0@,
    ensures
        map_of(entries).contains_key(entries[i].0@),
        map_of(entries)[entries[i].0@] == entries[i].1,
    decreases entries.len(),
{
    if i < entries.len() - 1 {
        let t = entries.drop_last();
        assert forall|j: int| i < j < t.len() implies (#[trigger] t[j]).0@ != t[i].0@ by {
            assert(t[j] == entries[j]);
        }
        last_entry_counts(t, i);
        assert(entries[entries.len() - 1].0@ != entries[i].0@);
    }
}

/// A map made of entries has no other names than they have.
pub proof fn entries_give_all_names<V>(entries: Seq<(String, V)>, name: Seq<char>)
    requires
        map_of(entries).contains_key(name),
    ensures
        exists|i: int| 0 <= i < entries.len() && (#[trigger] entries[i]).0@ == name,
    decreases entries.len(),
{
    if entries.len() > 0 {
        let n = entries.len() - 1;
        if entries[n].0@ != name {
            entries_give_all_names(entries.drop_last(), name);
            let i = choose|i: int|
                0 <= i < n && (#[trigger] entries.drop_last()[i]).0@ == name;
            assert(entries[i].0@ == name);
        }
    }
}

/// A map lists each of its names once, in ascending order.
pub proof fn names_are_listed_once<V>(map: NameMap<V>, n: usize)
    requires
        call_ensures(NameMap::<V>::len, (&map,), n),
    ensures
        n == map.names().len(),
        n == map@.dom().len(),
        map.names().no_duplicates(),
        map.names().to_set() == map@.dom(),
        forall|i: int, j: int|
            0 <= i < j < n ==> text_lt(#[trigger] map.names()[i], #[trigger] map.names()[j]),
{
    ascending_means(map.names());
    map.names().unique_seq_to_set();
    assert forall|name: Seq<char>| #[trigger]
        map.names().to_set().contains(name) <==> map@.dom().contains(name) by {
        assert(map@.contains_key(name) <==> map.names().contains(name));
    }
    assert(map.names().to_set() =~= map@.dom());
}

/// What is put into a map is found there under its name, and nothing else is
/// touched; what is taken out is gone.
pub proof fn map_keeps_what_is_put_in<V>(
    map: &mut NameMap<V>,
    name: String,
    value: V,
    other: &str,
    found: Option<&V>,
    contained: bool,
    place: usize,
    name_there: &String,
    value_there: &V,
)
    requires
        call_ensures(NameMap::<V>::insert, (map, name, value), ()),
        call_ensures(NameMap::<V>::get, (&*final(map), other), found),
        call_ensures(NameMap::<V>::contains_key, (&*final(map), other), contained),
        call_ensures(NameMap::<V>::name_at, (&*final(map), place), name_there),
        call_ensures(NameMap::<V>::value_at, (&*final(map), place), value_there),
    ensures
        other@ == name@ ==> found == Some(&value),
        other@ != name@ ==> (found is Some <==> old(map)@.contains_key(other@)),
        other@ != name@ && found is Some ==> *found->0 == old(map)@[other@],
        contained <==> found is Some,
        name_there@ == final(map).names()[place as int],
        *value_there == final(map)@[name_there@],
{
}

/// What is taken out of a map is answered and gone, and nothing else is touched.
pub proof fn map_forgets_what_is_taken_out<V>(
    map: &mut NameMap<V>,
    name: &str,
    taken: Option<V>,
    other: &str,
    found: Option<&V>,
)
    requires
        call_ensures(NameMap::<V>::remove, (map, name), taken),
        call_ensures(NameMap::<V>::get, (&*final(map), other), found),
    ensures
        taken is Some <==> old(map)@.contains_key(name@),
        taken is Some ==> taken->0 == old(map)@[name@],
        other@ == name@ ==> found is None,
        other@ != name@ ==> (found is Some <==> old(map)@.contains_key(other@)),
        other@ != name@ && found is Some ==> *found->0 == old(map)@[other@],
{
}

/// A new map is empty, and one made of entries has the last value of each name.
pub proof fn maps_are_made_of_entries<V>(
    empty: NameMap<V>,
    entries: Vec<(String, V)>,
    map: NameMap<V>,
    name: &str,
    found: Option<&V>,
)
    requires
        call_ensures(NameMap::<V>::new, (), empty),
        call_ensures(NameMap::<V>::from_entries, (entries,), map),
        call_ensures(NameMap::<V>::get, (&map, name), found),
    ensures
        empty@ == Map::<Seq<char>, V>::empty(),
        match found {
            Some(value) => exists|i: int| #[trigger]
                last_of_name(entries@, i) && entries@[i].0@ == name@ && entries@[i].1 == *value,
            None => forall|i: int| 0 <= i < entries@.len() ==> (#[trigger] entries@[i]).0@ != name@,
        },
{
    if found is Some {
        entries_give_all_names(entries@, name@);
        let i = choose|i: int| 0 <= i < entries@.len() && (#[trigger] entries@[i]).0@ == name@;
        let j = last_place(entries@, i);
        last_entry_counts(entries@, j);
        assert(last_of_name(entries@, j));
    } else {
        assert forall|i: int| 0 <= i < entries@.len() implies (#[trigger] entries@[i]).0@
            != name@ by {
            if entries@[i].0@ == name@ {
                let j = last_place(entries@, i);
                last_entry_counts(entries@, j);
            }
        }
    }
}

/// No entry behind the one at `i` has its name.
pub open spec fn last_of_name<V>(entries: Seq<(String, V)>, i: int) -> bool {
    &&& 0 <= i < entries.len()
    &&& forall|j: int| i < j < entries.len() ==> (#[trigger] entries[j]).0@ != entries[i].0@
}

proof fn last_place<V>(entries: Seq<(String, V)>, i: int) -> (j: int)
    requires
        0 <= i < entries.len(),
    ensures
        last_of_name(entries, j),
        entries[j].0@ == entries[i].0@,
    decreases entries.len() - i,
{
    if exists|k: int| i < k < entries.len() && (#[trigger] entries[k]).0@ == entries[i].0@ {
        let k = choose|k: int|
            i < k < entries.len() && (#[trigger] entries[k]).0@ == entries[i].0@;
        last_place(entries, k)
    } else {
        i
    }
}

} // verus!
