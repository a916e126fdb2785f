//! Comma separated sensor readings, cut into fields.
use bytes::Bytes;
use vstd::prelude::*;
use vstd::utf8::*;

verus! {

/// The byte that separates two fields of a reading.
pub const SEPARATOR: u8 = 44;

/// The fields of a reading, in order. A reading with `n` separators has `n + 1` fields, of which
/// any may be empty.
pub open spec fn split(s: Seq<u8>) -> Seq<Seq<u8>>
    decreases s.len(),
{
    if s.len() == 0 {
        seq![Seq::empty()]
    } else {
        let before = split(s.drop_last());
        if s.last() == SEPARATOR {
            before.push(Seq::empty())
        } else {
            before.drop_last().push(before.last().push(s.last()))
        }
    }
}

/// The fields put back together with a separator between each two.
pub open spec fn join(fields: Seq<Seq<u8>>) -> Seq<u8>
    decreases fields.len(),
{
    if fields.len() == 0 {
        Seq::empty()
    } else if fields.len() == 1 {
        fields[0]
    } else {
        join(fields.drop_last()).push(SEPARATOR) + fields.last()
    }
}

/// How many separators a reading holds.
pub open spec fn separators(s: Seq<u8>) -> nat
    decreases s.len(),
{
    if s.len() == 0 {
        0
    } else {
        separators(s.drop_last()) + if s.last() == SEPARATOR {
            1nat
        } else {
            0nat
        }
    }
}

/// The bytes that the fields hold together.
pub open spec fn total_len(fields: Seq<Seq<u8>>) -> nat
    decreases fields.len(),
{
    if fields.len() == 0 {
        0
    } else {
        total_len(fields.drop_last()) + fields.last().len()
    }
}

/// What each of the collected fields holds.
pub open spec fn views(fields: Seq<Bytes>) -> Seq<Seq<u8>> {
    fields.map_values(|b: Bytes| crate::packet::bytes_of(b))
}

/// A reading has one field more than it has separators.
pub proof fn split_counts_separators(s: Seq<u8>)
    ensures
        split(s).len() == separators(s) + 1,
    decreases s.len(),
{
    if s.len() > 0 {
        split_counts_separators(s.drop_last());
    }
}

/// Cutting a reading into fields loses nothing: joined again, the fields are the reading.
pub proof fn join_undoes_split(s: Seq<u8>)
    ensures
        join(split(s)) == s,
    decreases s.len(),
{
    if s.len() > 0 {
        let init = s.drop_last();
        let before = split(init);
        join_undoes_split(init);
        split_counts_separators(init);
        assert(init.push(s.last()) == s);
        if s.last() == SEPARATOR {
            assert(split(s).drop_last() == before);
            assert(join(split(s)) == s);
        } else {
            let grown = before.last().push(s.last());
            assert(split(s).drop_last() == before.drop_last());
            assert(split(s).last() == grown);
            if before.len() == 1 {
                assert(join(split(s)) == s);
            } else {
                assert(join(split(s)) == join(before.drop_last()).push(SEPARATOR) + grown);
                assert(join(split(s)) == s);
            }
        }
    }
}

/// No field of a reading holds a separator.
pub proof fn fields_hold_no_separator(s: Seq<u8>)
    ensures
        forall|j: int| 0 <= j < split(s).len() ==> !(#[trigger] split(s)[j]).contains(SEPARATOR),
    decreases s.len(),
{
    if s.len() > 0 {
        let before = split(s.drop_last());
        fields_hold_no_separator(s.drop_last());
        split_counts_separators(s.drop_last());
        assert forall|j: int| 0 <= j < split(s).len() implies !(
        #[trigger] split(s)[j]).contains(SEPARATOR) by {
            if j < before.len() - 1 || s.last() == SEPARATOR {
                if j < before.len() {
                    assert(split(s)[j] == before[j]);
                }
            } else {
                assert(before[before.len() - 1] == before.last());
                let grown = before.last().push(s.last());
                assert(split(s)[j] == grown);
                if grown.contains(SEPARATOR) {
                    let k = choose|k: int| 0 <= k < grown.len() && grown[k] == SEPARATOR;
                    assert(before.last()[k] == SEPARATOR);
                }
            }
        }
    }
}

/// The fields of a reading and its separators together are as long as the reading.
pub proof fn split_keeps_length(s: Seq<u8>)
    ensures
        total_len(split(s)) + separators(s) == s.len(),
    decreases s.len(),
{
    if s.len() == 0 {
        assert(split(s).drop_last() == Seq::<Seq<u8>>::empty());
        assert(total_len(split(s).drop_last()) == 0);
    } else {
        let before = split(s.drop_last());
        split_keeps_length(s.drop_last());
        split_counts_separators(s.drop_last());
        if s.last() == SEPARATOR {
            assert(split(s).drop_last() == before);
        } else {
            assert(split(s).drop_last() == before.drop_last());
        }
    }
}

/// The first fields of a list are together no longer than all of them.
pub proof fn total_len_of_prefix(fields: Seq<Seq<u8>>, n: int)
    requires
        0 <= n <= fields.len(),
    ensures
        total_len(fields.take(n)) <= total_len(fields),
    decreases fields.len(),
{
    if n < fields.len() {
        assert(fields.drop_last().take(n) == fields.take(n));
        total_len_of_prefix(fields.drop_last(), n);
    } else {
        assert(fields.take(n) == fields);
    }
}

proof fn split_without_separator(s: Seq<u8>)
    requires
        !s.contains(SEPARATOR),
    ensures
        split(s) == seq![s],
    decreases s.len(),
{
    if s.len() > 0 {
        let init = s.drop_last();
        if init.contains(SEPARATOR) {
            let k = choose|k: int| 0 <= k < init.len() && init[k] == SEPARATOR;
            assert(s[k] == SEPARATOR);
        }
        split_without_separator(init);
        assert(s[s.len() - 1] != SEPARATOR);
        assert(init.push(s.last()) == s);
        assert(split(s) =~= seq![s]);
    } else {
        assert(s =~= Seq::<u8>::empty());
    }
}

proof fn split_at_last_separator(s: Seq<u8>, p: int)
    requires
        0 <= p < s.len(),
        s[p] == SEPARATOR,
        forall|k: int| p < k < s.len() ==> s[k] != SEPARATOR,
    ensures
        split(s) == split(s.take(p)).push(s.skip(p + 1)),
    decreases s.len(),
{
    let init = s.drop_last();
    if p == s.len() - 1 {
        assert(init == s.take(p));
        assert(s.skip(p + 1) == Seq::<u8>::empty());
    } else {
        split_at_last_separator(init, p);
        let before = split(s.take(p));
        assert(init.take(p) == s.take(p));
        assert(init.skip(p + 1).push(s.last()) == s.skip(p + 1));
        assert(before.push(init.skip(p + 1)).drop_last() == before);
        assert(s[s.len() - 1] != SEPARATOR);
    }
}

/// The fields of a reading that is text are text.
pub proof fn fields_of_text_are_text(s: Seq<u8>)
    requires
        valid_utf8(s),
    ensures
        forall|j: int| 0 <= j < split(s).len() ==> valid_utf8(#[trigger] split(s)[j]),
    decreases s.len(),
{
    if s.contains(SEPARATOR) {
        let p = last_separator(s);
        split_at_last_separator(s, p);
        is_char_boundary_iff_not_is_continuation_byte(s, p);
        valid_utf8_split(s, p);
        let tail = s.subrange(p, s.len() as int);
        assert(s.take(p) == s.subrange(0, p));
        assert(valid_utf8(tail));
        assert(tail[0] == SEPARATOR);
        assert(pop_first_scalar(tail) =~= s.skip(p + 1));
        fields_of_text_are_text(s.take(p));
        assert forall|j: int| 0 <= j < split(s).len() implies valid_utf8(#[trigger] split(s)[j]) by {
            if j < split(s.take(p)).len() {
                assert(split(s)[j] == split(s.take(p))[j]);
            }
        }
    } else {
        split_without_separator(s);
    }
}

proof fn last_separator(s: Seq<u8>) -> (p: int)
    requires
        s.contains(SEPARATOR),
    ensures
        0 <= p < s.len(),
        s[p] == SEPARATOR,
        forall|k: int| p < k < s.len() ==> s[k] != SEPARATOR,
    decreases s.len(),
{
    if s.last() == SEPARATOR {
        s.len() - 1
    } else {
        let k = choose|k: int| 0 <= k < s.len() && s[k] == SEPARATOR;
        assert(s.drop_last()[k] == SEPARATOR);
        let p = last_separator(s.drop_last());
        assert forall|k: int| p < k < s.len() implies s[k] != SEPARATOR by {
            if k < s.len() - 1 {
                assert(s.drop_last()[k] != SEPARATOR);
            }
        }
        p
    }
}

/// A reading without a comma is one field. At each comma, wherever it stands, the fields of what is
/// before it are followed by the fields of what is after it. This settles the fields of every
/// reading.
pub proof fn readings_are_cut_at_each_comma(before: Seq<u8>, after: Seq<u8>)
    ensures
        !before.contains(44) ==> split(before) == seq![before],
        split(before.push(44) + after) == split(before) + split(after),
    decreases after.len(),
{
    if !before.contains(44) {
        split_without_separator(before);
    }
    let s = before.push(44) + after;
    if after.len() == 0 {
        assert(s.drop_last() =~= before);
        assert(split(s) =~= split(before) + split(after));
    } else {
        let init = after.drop_last();
        readings_are_cut_at_each_comma(before, init);
        split_counts_separators(init);
        split_counts_separators(before);
        assert(s.drop_last() =~= before.push(44) + init);
        assert(s.last() == after.last());
        assert((split(before) + split(init)).drop_last() =~= split(before) + split(
            init,
        ).drop_last());
        assert(split(s) =~= split(before) + split(after));
    }
}

/// The fields hold no comma, there is at least one, and put one after the other with a comma before
/// each but the first they are the reading again.
pub proof fn fields_make_the_reading(s: Seq<u8>, pieces: Seq<Seq<u8>>)
    requires
        pieces.len() == split(s).len(),
        forall|i: int|
            0 <= i < pieces.len() ==> #[trigger] pieces[i] == (if i > 0 {
                seq![44u8]
            } else {
                Seq::empty()
            }) + split(s)[i],
    ensures
        split(s).len() > 0,
        forall|i: int| 0 <= i < split(s).len() ==> !(#[trigger] split(s)[i]).contains(44),
        pieces.flatten() == s,
{
    split_counts_separators(s);
    fields_hold_no_separator(s);
    join_undoes_split(s);
    join_is_flat(split(s), pieces);
}

proof fn join_is_flat(fields: Seq<Seq<u8>>, pieces: Seq<Seq<u8>>)
    requires
        pieces.len() == fields.len(),
        forall|i: int|
            0 <= i < pieces.len() ==> #[trigger] pieces[i] == (if i > 0 {
                seq![44u8]
            } else {
                Seq::empty()
            }) + fields[i],
    ensures
        join(fields) == pieces.flatten(),
    decreases fields.len(),
{
    if fields.len() > 0 {
        let init = pieces.drop_last();
        assert forall|i: int| 0 <= i < init.len() implies #[trigger] init[i] == (if i > 0 {
            seq![44u8]
        } else {
            Seq::empty()
        }) + fields.drop_last()[i] by {
            assert(pieces[i] == init[i]);
        }
        join_is_flat(fields.drop_last(), init);
        pieces.lemma_flatten_and_flatten_alt_are_equivalent();
        init.lemma_flatten_and_flatten_alt_are_equivalent();
        assert(pieces[pieces.len() - 1] == pieces.last());
        assert(join(fields) =~= pieces.flatten());
    }
}

/// Cuts a reading into its fields.
pub fn split_fields(reading: &[u8]) -> (fields: Vec<Bytes>)
    ensures
        views(fields@) == split(reading@),
        fields@.len() == split(reading@).len(),
        forall|i: int|
            0 <= i < fields@.len() ==> crate::packet::bytes_of(#[trigger] fields@[i]) == split(
                reading@,
            )[i],
        fields@.len() > 0,
        forall|i: int|
            0 <= i < fields@.len() ==> !crate::packet::bytes_of(#[trigger] fields@[i]).contains(44),
        Seq::new(
            fields@.len(),
            |i: int|
                (if i > 0 {
                    seq![44u8]
                } else {
                    Seq::empty()
                }) + crate::packet::bytes_of(fields@[i]),
        ).flatten() == reading@,
{
    let mut fields: Vec<Bytes> = Vec::new();
    let mut start: usize = 0;
    let mut i: usize = 0;
    proof {
        assert(reading@.take(0) == Seq::<u8>::empty());
        assert(reading@.subrange(0, 0) == Seq::<u8>::empty());
        assert(views(fields@).push(Seq::empty()) == split(reading@.take(0)));
    }
    while i < reading.len()
        invariant
            start <= i <= reading@.len(),
            split(reading@.take(i as int)) == views(fields@).push(
                reading@.subrange(start as int, i as int),
            ),
        decreases reading@.len() - i,
    {
        proof {
            assert(reading@.take(i + 1).drop_last() == reading@.take(i as int));
        }
        let ghost done = views(fields@);
        let ghost current = reading@.subrange(start as int, i as int);
        if reading[i] == SEPARATOR {
            fields.push(Bytes::copy_from_slice(vstd::slice::slice_subrange(reading, start, i)));
            start = i + 1;
            proof {
                assert(views(fields@) == done.push(current));
                assert(reading@.subrange(start as int, i + 1) == Seq::<u8>::empty());
            }
        } else {
            proof {
                assert(done.push(current).drop_last() == done);
                assert(reading@.subrange(start as int, i + 1) == current.push(reading@[i as int]));
            }
        }
        i = i + 1;
    }
    let ghost done = views(fields@);
    fields.push(Bytes::copy_from_slice(vstd::slice::slice_subrange(reading, start, i)));
    proof {
        assert(reading@.take(i as int) == reading@);
        assert(views(fields@) == done.push(reading@.subrange(start as int, i as int)));
        assert forall|i: int| 0 <= i < fields@.len() implies crate::packet::bytes_of(
            #[trigger] fields@[i],
        ) == split(reading@)[i] by {
            assert(views(fields@)[i] == split(reading@)[i]);
        }
        fields_make_the_reading(
            reading@,
            Seq::new(
                fields@.len(),
                |i: int|
                    (if i > 0 {
                        seq![44u8]
                    } else {
                        Seq::empty()
                    }) + crate::packet::bytes_of(fields@[i]),
            ),
        );
    }
    fields
}

} // verus!
