//! Audio, cut into overlapping pieces.
use vstd::prelude::*;

verus! {

/// The pieces of `length` samples that are cut off `samples`, each `stride`
/// samples behind the one before it.
pub open spec fn windows<T>(samples: Seq<T>, length: nat, stride: nat) -> Seq<Seq<T>>
    decreases samples.len(),
{
    if stride == 0 || length < stride || samples.len() < length {
        Seq::empty()
    } else {
        seq![samples.take(length as int)] + windows(samples.skip(stride as int), length, stride)
    }
}

/// What is left of `samples` when the pieces have been cut off; it starts with
/// what the last piece has in common with the next.
pub open spec fn remains<T>(samples: Seq<T>, length: nat, stride: nat) -> Seq<T>
    decreases samples.len(),
{
    if stride == 0 || length < stride || samples.len() < length {
        samples
    } else {
        remains(samples.skip(stride as int), length, stride)
    }
}

/// The first `stride` samples of each of `pieces`.
pub open spec fn starts_of<T>(pieces: Seq<Seq<T>>, stride: nat) -> Seq<Seq<T>> {
    pieces.map_values(|piece: Seq<T>| piece.take(stride as int))
}

/// Cutting audio into pieces loses, repeats and reorders no sample beyond the
/// overlap: the pieces, each up to where the next one starts, and the rest make
/// up the audio, every piece has the full length, and the rest is shorter than
/// one.
pub proof fn law_windows_make_up_the_audio<T>(samples: Seq<T>, length: nat, stride: nat)
    requires
        0 < stride <= length,
    ensures
        starts_of(windows(samples, length, stride), stride).flatten() + remains(
            samples,
            length,
            stride,
        ) == samples,
        forall|i: int|
            0 <= i < windows(samples, length, stride).len() ==> (#[trigger] windows(
                samples,
                length,
                stride,
            )[i]).len() == length,
        remains(samples, length, stride).len() < length,
    decreases samples.len(),
{
    let pieces = windows(samples, length, stride);
    if samples.len() < length {
        assert(starts_of(pieces, stride) =~= Seq::<Seq<T>>::empty());
        assert(Seq::<Seq<T>>::empty().flatten() + samples =~= samples);
    } else {
        let first = samples.take(length as int);
        let start = samples.take(stride as int);
        let tail = samples.skip(stride as int);
        law_windows_make_up_the_audio(tail, length, stride);
        let starts = starts_of(pieces, stride);
        assert(pieces.first() == first);
        assert(first.take(stride as int) =~= start);
        assert(starts.first() == start);
        assert(starts.drop_first() =~= starts_of(windows(tail, length, stride), stride));
        assert(starts.flatten() == start + starts.drop_first().flatten());
        assert(starts.flatten() + remains(samples, length, stride) =~= start + tail);
        assert(start + tail =~= samples);
        assert forall|i: int| 0 <= i < pieces.len() implies (#[trigger] pieces[i]).len()
            == length by {
            if i > 0 {
                assert(pieces.drop_first()[i - 1] == pieces[i]);
                assert(pieces.drop_first() =~= windows(tail, length, stride));
            }
        }
    }
}

/// Neighbouring pieces overlap: each starts with what the one before ends with.
pub proof fn law_windows_overlap<T>(samples: Seq<T>, length: nat, stride: nat, index: int)
    requires
        0 < stride <= length,
        0 <= index < windows(samples, length, stride).len() - 1,
    ensures
        windows(samples, length, stride)[index].skip(stride as int) == windows(
            samples,
            length,
            stride,
        )[index + 1].take(length - stride),
    decreases samples.len(),
{
    let pieces = windows(samples, length, stride);
    let tail = samples.skip(stride as int);
    let later = windows(tail, length, stride);
    assert(pieces.drop_first() =~= later);
    if index == 0 {
        assert(pieces[1] == later[0]);
        assert(later[0] == tail.take(length as int));
        assert(pieces[0].skip(stride as int) =~= pieces[1].take(length - stride));
    } else {
        law_windows_overlap(tail, length, stride, index - 1);
        assert(pieces[index] == later[index - 1]);
        assert(pieces[index + 1] == later[index]);
    }
}

/// It makes no difference in how many deliveries the audio arrives: cutting
/// what is left of the first together with the second gives the same pieces
/// and the same rest as cutting all of it at once.
pub proof fn law_deliveries_do_not_matter<T>(
    first: Seq<T>,
    second: Seq<T>,
    length: nat,
    stride: nat,
)
    requires
        0 < stride <= length,
    ensures
        windows(first + second, length, stride) == windows(first, length, stride) + windows(
            remains(first, length, stride) + second,
            length,
            stride,
        ),
        remains(first + second, length, stride) == remains(
            remains(first, length, stride) + second,
            length,
            stride,
        ),
    decreases first.len(),
{
    if first.len() < length {
        assert(windows(first, length, stride) + windows(first + second, length, stride)
            =~= windows(first + second, length, stride));
    } else {
        let tail = first.skip(stride as int);
        law_deliveries_do_not_matter(tail, second, length, stride);
        assert((first + second).take(length as int) =~= first.take(length as int));
        assert((first + second).skip(stride as int) =~= tail + second);
        assert(windows(first + second, length, stride) =~= windows(first, length, stride) + windows(
            remains(first, length, stride) + second,
            length,
            stride,
        ));
    }
}

/// What is left when pieces have been cut off starts with what the last of them
/// has in common with the next.
pub proof fn lemma_rest_starts_with_the_overlap<T>(samples: Seq<T>, length: nat, stride: nat)
    requires
        0 < stride <= length,
        windows(samples, length, stride).len() > 0,
    ensures
        remains(samples, length, stride).len() >= length - stride,
        remains(samples, length, stride).take(length - stride) == windows(
            samples,
            length,
            stride,
        ).last().skip(stride as int),
    decreases samples.len(),
{
    let pieces = windows(samples, length, stride);
    let tail = samples.skip(stride as int);
    let later = windows(tail, length, stride);
    assert(pieces.drop_first() =~= later);
    if later.len() > 0 {
        lemma_rest_starts_with_the_overlap(tail, length, stride);
        assert(pieces.last() == later.last());
    } else {
        assert(tail.len() < length);
        assert(remains(tail, length, stride) == tail);
        assert(pieces.last() == samples.take(length as int));
        assert(tail.take(length - stride) =~= pieces.last().skip(stride as int));
    }
}

} // verus!
