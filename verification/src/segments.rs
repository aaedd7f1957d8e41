//! Long recordings: where they are split, and how the pieces' transcripts
//! become one. A recognizer quietly truncates audio that is too long for it,
//! so it never gets to see any.

use vstd::prelude::*;
use crate::engine::Transcript;
use crate::text;

verus! {

/// How many samples are judged together as silent or not: a tenth of a second
/// at 16 kHz.
pub const BLOCK: usize = 1_600;

// ---------------------------------------------------------------- silence

/// Where the silent ones among the first `n` blocks begin.
pub open spec fn silences(silent: Seq<bool>, n: int, block: int) -> Seq<int>
    decreases n,
{
    if n <= 0 {
        Seq::empty()
    } else if silent[n - 1] {
        silences(silent, n - 1, block).push((n - 1) * block)
    } else {
        silences(silent, n - 1, block)
    }
}

/// Positions as integers.
pub open spec fn positions(v: Seq<usize>) -> Seq<int> {
    v.map_values(|p: usize| p as int)
}

/// Where the silent blocks of a recording begin.
pub fn silent_places(silent: &Vec<bool>, block: usize) -> (r: Vec<usize>)
    requires
        silent@.len() * block <= usize::MAX,
    ensures
        positions(r@) == silences(silent@, silent@.len() as int, block as int),
{
    let mut r: Vec<usize> = Vec::new();
    let mut i: usize = 0;
    let mut at: usize = 0;
    assert(positions(r@) =~= silences(silent@, 0, block as int));
    while i < silent.len()
        invariant
            i <= silent@.len(),
            at == i * block,
            silent@.len() * block <= usize::MAX,
            positions(r@) == silences(silent@, i as int, block as int),
        decreases silent@.len() - i,
    {
        let ghost before = r@;
        assert((i + 1) * block == i * block + block && (i + 1) * block <= silent@.len() * block)
            by (nonlinear_arith)
            requires
                i < silent@.len(),
        ;
        if silent[i] {
            r.push(at);
            assert(positions(r@) =~= positions(before).push(at as int));
        }
        at += block;
        i += 1;
    }
    r
}

// ---------------------------------------------------------------- splitting

/// The last of some places that lies behind `start` and not behind `end`.
pub open spec fn last_place(places: Seq<int>, start: int, end: int) -> Option<int>
    decreases places.len(),
{
    if places.len() == 0 {
        None
    } else {
        let before = last_place(places.drop_last(), start, end);
        let p = places.last();
        if start < p <= end && (before matches Some(b) ==> b < p) {
            Some(p)
        } else {
            before
        }
    }
}

/// Where a piece that begins at `start` ends, if there is more audio than
/// `longest`: at the last silence within reach, or as late as it may.
pub open spec fn cut(start: int, longest: int, places: Seq<int>) -> int {
    match last_place(places, start, start + longest) {
        Some(p) => p,
        None => start + longest,
    }
}

/// Where the pieces of the audio from `start` on end.
pub open spec fn ends(start: int, total: int, longest: int, places: Seq<int>) -> Seq<int>
    decreases total - start,
{
    if longest <= 0 || total - start <= longest {
        seq![total]
    } else {
        proof {
            lemma_last_place(places, start, start + longest);
        }
        seq![cut(start, longest, places)] + ends(
            cut(start, longest, places),
            total,
            longest,
            places,
        )
    }
}

/// [`last_place`] is a place in range, and none in range lies behind it.
pub proof fn lemma_last_place(places: Seq<int>, start: int, end: int)
    ensures
        match last_place(places, start, end) {
            Some(p) => {
                &&& start < p <= end
                &&& places.contains(p)
                &&& forall|q: int| places.contains(q) && start < q <= end ==> q <= p
            },
            None => forall|q: int| places.contains(q) ==> !(start < q <= end),
        },
    decreases places.len(),
{
    if places.len() > 0 {
        let front = places.drop_last();
        lemma_last_place(front, start, end);
        assert(places =~= front.push(places.last()));
        assert forall|q: int| places.contains(q) implies front.contains(q) || q == places.last() by {
            let i = choose|i: int| 0 <= i < places.len() && places[i] == q;
            assert(i < front.len() ==> front[i] == q);
        }
        assert forall|q: int| front.contains(q) implies places.contains(q) by {
            let i = choose|i: int| 0 <= i < front.len() && front[i] == q;
            assert(places[i] == q);
        }
        assert(places[places.len() - 1] == places.last());
    }
}

/// Where a piece that begins at `start` ends.
fn find_cut(start: usize, longest: usize, places: &Vec<usize>) -> (r: usize)
    requires
        0 < longest,
        start + longest <= usize::MAX,
    ensures
        r == cut(start as int, longest as int, positions(places@)),
        start < r <= start + longest,
{
    let end: usize = start + longest;
    let mut last: Option<usize> = None;
    let mut i: usize = 0;
    let ghost all = positions(places@);
    assert(all.take(0) =~= Seq::<int>::empty());
    while i < places.len()
        invariant
            i <= places@.len(),
            end == start + longest,
            all == positions(places@),
            last_place(all.take(i as int), start as int, end as int) == match last {
                Some(p) => Some(p as int),
                None => None,
            },
        decreases places@.len() - i,
    {
        assert(all.take(i + 1).drop_last() =~= all.take(i as int));
        let p: usize = places[i];
        assert(all.take(i + 1).last() == p as int);
        let later = match last {
            Some(b) => b < p,
            None => true,
        };
        if start < p && p <= end && later {
            last = Some(p);
        }
        i += 1;
    }
    assert(all.take(i as int) =~= all);
    proof {
        lemma_last_place(all, start as int, end as int);
    }
    match last {
        Some(p) => p,
        None => end,
    }
}

/// Where the pieces of `total` samples end that a recognizer gets to see, none
/// of them longer than `longest`.
pub fn split(total: usize, longest: usize, places: &Vec<usize>) -> (r: Vec<usize>)
    requires
        0 < longest,
    ensures
        positions(r@) == ends(0, total as int, longest as int, positions(places@)),
{
    let mut r: Vec<usize> = Vec::new();
    let mut start: usize = 0;
    let ghost all = positions(places@);
    assert(positions(r@) + ends(0, total as int, longest as int, all) =~= ends(
        0,
        total as int,
        longest as int,
        all,
    ));
    while total - start > longest
        invariant
            0 < longest,
            start <= total,
            all == positions(places@),
            positions(r@) + ends(start as int, total as int, longest as int, all) == ends(
                0,
                total as int,
                longest as int,
                all,
            ),
        decreases total - start,
    {
        let ghost before = positions(r@);
        let end = find_cut(start, longest, places);
        r.push(end);
        assert(positions(r@) =~= before.push(end as int));
        assert(before + (seq![end as int] + ends(end as int, total as int, longest as int, all))
            =~= before.push(end as int) + ends(end as int, total as int, longest as int, all));
        start = end;
    }
    let ghost before = positions(r@);
    r.push(total);
    assert(positions(r@) =~= before + seq![total as int]);
    r
}

// ---------------------------------------------------------------- joining

/// The texts that hold any words.
pub open spec fn spoken(texts: Seq<Seq<char>>) -> Seq<Seq<char>> {
    texts.filter(|t: Seq<char>| t.len() > 0)
}

/// The transcript of a recording, from those of its pieces.
pub fn transcript_of(pieces: &Vec<Transcript>) -> (r: Transcript)
    ensures
        r.text@ == text::joined(spoken(pieces@.map_values(|t: Transcript| t.text@)), " "@),
        r.language is None,
{
    let mut texts: Vec<String> = Vec::new();
    let mut i: usize = 0;
    let ghost all = pieces@.map_values(|t: Transcript| t.text@);
    proof {
        reveal(Seq::filter);
    }
    assert(text::views(texts@) =~= spoken(all.take(0)));
    while i < pieces.len()
        invariant
            i <= pieces@.len(),
            all == pieces@.map_values(|t: Transcript| t.text@),
            text::views(texts@) == spoken(all.take(i as int)),
        decreases pieces@.len() - i,
    {
        proof {
            reveal(Seq::filter);
        }
        assert(all.take(i + 1).drop_last() =~= all.take(i as int));
        assert(all.take(i + 1).last() == pieces@[i as int].text@);
        let ghost before = texts@;
        if !pieces[i].text.as_str().is_empty() {
            texts.push(pieces[i].text.clone());
            assert(text::views(texts@) =~= text::views(before).push(pieces@[i as int].text@));
        }
        i += 1;
    }
    assert(all.take(i as int) =~= all);
    Transcript { text: text::join(&texts, " "), language: None }
}

// ---------------------------------------------------------------- laws

/// Where piece `k` begins.
pub open spec fn begin(ends: Seq<int>, k: int) -> int {
    if k <= 0 {
        0
    } else {
        ends[k - 1]
    }
}

/// The pieces make up the recording: they follow one another without a gap,
/// none is empty, and the last one ends where the recording does. None is
/// longer than the recognizer can take.
pub proof fn law_pieces_make_up_the_recording(total: int, longest: int, places: Seq<int>)
    requires
        0 < total,
        0 < longest,
    ensures
        ends(0, total, longest, places).len() > 0,
        ends(0, total, longest, places).last() == total,
        forall|k: int|
            0 <= k < ends(0, total, longest, places).len() ==> begin(
                ends(0, total, longest, places),
                k,
            ) < #[trigger] ends(0, total, longest, places)[k] <= begin(
                ends(0, total, longest, places),
                k,
            ) + longest,
{
    lemma_pieces(0, total, longest, places);
}

/// A recording is split at silence wherever there is any within the
/// recognizer's reach.
pub proof fn law_recordings_are_split_at_silence(total: int, longest: int, places: Seq<int>, k: int)
    requires
        0 < total,
        0 < longest,
        0 <= k < ends(0, total, longest, places).len() - 1,
        exists|q: int|
            places.contains(q) && begin(ends(0, total, longest, places), k) < q <= begin(
                ends(0, total, longest, places),
                k,
            ) + longest,
    ensures
        places.contains(ends(0, total, longest, places)[k]),
{
    lemma_pieces(0, total, longest, places);
    let from = begin(ends(0, total, longest, places), k);
    lemma_last_place(places, from, from + longest);
}

/// A recording that the recognizer can take is not split.
pub proof fn law_short_recordings_stay_whole(total: int, longest: int, places: Seq<int>)
    requires
        0 <= total <= longest,
    ensures
        ends(0, total, longest, places) == seq![total],
{
}

/// Where the pieces from `start` on end, one by one.
proof fn lemma_pieces(start: int, total: int, longest: int, places: Seq<int>)
    requires
        start < total,
        0 < longest,
    ensures
        ({
            let e = ends(start, total, longest, places);
            &&& e.len() > 0
            &&& e.last() == total
            &&& forall|k: int|
                0 <= k < e.len() ==> {
                    let from = if k == 0 {
                        start
                    } else {
                        e[k - 1]
                    };
                    &&& from < #[trigger] e[k] <= from + longest
                    &&& k < e.len() - 1 ==> e[k] == cut(from, longest, places) && total - from > longest
                }
        }),
    decreases total - start,
{
    if total - start > longest {
        lemma_last_place(places, start, start + longest);
        let c = cut(start, longest, places);
        lemma_pieces(c, total, longest, places);
        let rest = ends(c, total, longest, places);
        let e = ends(start, total, longest, places);
        assert(e =~= seq![c] + rest);
        assert forall|k: int| 0 <= k < e.len() implies {
            let from = if k == 0 {
                start
            } else {
                e[k - 1]
            };
            &&& from < #[trigger] e[k] <= from + longest
            &&& k < e.len() - 1 ==> e[k] == cut(from, longest, places) && total - from > longest
        } by {
            if k > 0 {
                assert(e[k] == rest[k - 1]);
                if k > 1 {
                    assert(e[k - 1] == rest[k - 2]);
                }
            }
        }
    }
}

/// A piece is as long as it can be: it ends at the last silence within reach,
/// or where the reach ends if there is none; and only what the recognizer cannot
/// take whole is split.
pub proof fn law_pieces_are_as_long_as_can_be(
    total: int,
    longest: int,
    places: Seq<int>,
    k: int,
    q: int,
)
    requires
        0 < total,
        0 < longest,
        0 <= k < ends(0, total, longest, places).len() - 1,
    ensures
        ({
            let e = ends(0, total, longest, places);
            let from = begin(e, k);
            &&& total - from > longest
            &&& places.contains(q) && from < q <= from + longest ==> q <= e[k]
            &&& !places.contains(e[k]) ==> e[k] == from + longest
        }),
{
    let e = ends(0, total, longest, places);
    let from = begin(e, k);
    assert(e[k] == cut(from, longest, places) && total - from > longest) by {
        lemma_pieces(0, total, longest, places);
    }
    lemma_last_place(places, from, from + longest);
}

/// The silent places are the beginnings of the silent blocks, all of them and
/// no others, in order.
pub proof fn law_silent_blocks_are_places(silent: Seq<bool>, n: int, block: int)
    requires
        0 <= n <= silent.len(),
        0 < block,
    ensures
        forall|i: int|
            0 <= i < n ==> (#[trigger] silent[i] <==> silences(silent, n, block).contains(
                i * block,
            )),
        forall|k: int|
            0 <= k < silences(silent, n, block).len() ==> 0 <= #[trigger] silences(
                silent,
                n,
                block,
            )[k] < n * block && silences(silent, n, block)[k] % block == 0,
        forall|j: int, k: int|
            0 <= j < k < silences(silent, n, block).len() ==> #[trigger] silences(
                silent,
                n,
                block,
            )[j] < #[trigger] silences(silent, n, block)[k],
    decreases n,
{
    let now = silences(silent, n, block);
    if n == 0 {
        assert(0 * block == 0);
    } else {
        let m = n - 1;
        law_silent_blocks_are_places(silent, m, block);
        let before = silences(silent, m, block);
        assert(n * block == m * block + block) by (nonlinear_arith)
            requires
                m == n - 1,
        ;
        assert((m * block) % block == 0) by {
            vstd::arithmetic::div_mod::lemma_mod_multiples_basic(m, block);
        }
        assert(m * block >= 0) by (nonlinear_arith)
            requires
                m >= 0,
                block > 0,
        ;
        assert forall|i: int| 0 <= i < n implies (#[trigger] silent[i] <==> now.contains(
            i * block,
        )) by {
            if i < m {
                assert(i * block < m * block) by (nonlinear_arith)
                    requires
                        i < m,
                        block > 0,
                ;
                if before.contains(i * block) {
                    let k = choose|k: int| 0 <= k < before.len() && before[k] == i * block;
                    assert(now[k] == i * block);
                }
                if now.contains(i * block) {
                    let k = choose|k: int| 0 <= k < now.len() && now[k] == i * block;
                    assert(k < before.len());
                    assert(before[k] == i * block);
                }
            } else {
                if silent[m] {
                    assert(now[now.len() - 1] == m * block);
                } else if now.contains(m * block) {
                    let k = choose|k: int| 0 <= k < now.len() && now[k] == m * block;
                    assert(before[k] < m * block);
                }
            }
        }
    }
}

/// The words of the pieces are kept in order, and only pieces without any are
/// left out.
pub proof fn law_no_piece_is_forgotten(a: Seq<Seq<char>>, b: Seq<Seq<char>>, t: Seq<char>)
    ensures
        spoken(a + b) == spoken(a) + spoken(b),
        spoken(seq![t]) == if t.len() > 0 {
            seq![t]
        } else {
            Seq::empty()
        },
        spoken(Seq::empty()) == Seq::<Seq<char>>::empty(),
    decreases b.len(),
{
    reveal(Seq::filter);
    assert(seq![t].drop_last() =~= Seq::empty());
    assert(spoken(Seq::empty()) =~= Seq::<Seq<char>>::empty());
    if b.len() == 0 {
        assert(a + b =~= a);
        assert(b =~= Seq::empty());
    } else {
        law_no_piece_is_forgotten(a, b.drop_last(), t);
        assert((a + b).drop_last() =~= a + b.drop_last());
        assert((a + b).last() == b.last());
    }
    assert(spoken(seq![t]) =~= if t.len() > 0 {
        seq![t]
    } else {
        Seq::empty()
    });
}

} // verus!
