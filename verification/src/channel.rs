//! Channel strategies: how the per-channel bands that the spectrum analyser
//! produces are laid out as the bars that are shown.

use vstd::prelude::*;
use crate::text::{ascii_lower, is_ascii_char, lowercase, same_text, to_lowercase};

verus! {

/// Strategy for processing audio input levels.
#[derive(Debug, Clone, Copy, PartialEq, Eq, Structural)]
pub enum Channel {
    /// Average the left and right channels.
    Average,
    /// Use the left channel only.
    Left,
    /// Use the right channel only.
    Right,
    /// Use both channels in stereo.
    Stereo,
}

/// Where one shown value comes from: one input band, or the mean of two.
#[derive(Debug, Clone, Copy, PartialEq, Eq, Structural)]
pub enum Pick {
    /// The value of input band `i`.
    One(usize),
    /// The mean of input bands `i` and `j`.
    Mean(usize, usize),
}

/// The name of a channel strategy, as it is displayed.
pub open spec fn channel_name(c: Channel) -> Seq<char> {
    match c {
        Channel::Average => seq!['A', 'v', 'e', 'r', 'a', 'g', 'e'],
        Channel::Left => seq!['L', 'e', 'f', 't'],
        Channel::Right => seq!['R', 'i', 'g', 'h', 't'],
        Channel::Stereo => seq!['S', 't', 'e', 'r', 'e', 'o'],
    }
}

/// The strategy that a lowercased name selects; anything unknown selects
/// `Stereo`.
pub open spec fn channel_of_lowercase(s: Seq<char>) -> Channel {
    if s == seq!['a', 'v', 'e', 'r', 'a', 'g', 'e'] {
        Channel::Average
    } else if s == seq!['l', 'e', 'f', 't'] {
        Channel::Left
    } else if s == seq!['r', 'i', 'g', 'h', 't'] {
        Channel::Right
    } else {
        Channel::Stereo
    }
}

/// The strategy that a name selects, compared without regard to case.
pub open spec fn channel_of_name(s: Seq<char>) -> Channel {
    channel_of_lowercase(lowercase(s))
}

/// Which input bands make up each shown value, for `n` input bands: the
/// first half of the bands belongs to the left channel, the second half to
/// the right one.
pub open spec fn plan_of(c: Channel, n: nat) -> Seq<Pick> {
    let h = n / 2;
    match c {
        Channel::Average => Seq::new(h, |i: int| Pick::Mean(i as usize, (h + i) as usize)),
        Channel::Left => Seq::new(h, |i: int| Pick::One(i as usize)),
        Channel::Right => Seq::new((n - h) as nat, |i: int| Pick::One((h + i) as usize)),
        Channel::Stereo => Seq::new(
            n,
            |i: int|
                if i < h {
                    Pick::One(i as usize)
                } else {
                    Pick::One((n - 1 - (i - h)) as usize)
                },
        ),
    }
}

/// How many bands the spectrum analyser is asked for, given the number of
/// bars to show.
pub open spec fn analyser_bars(c: Channel, bars: nat) -> nat {
    match c {
        Channel::Stereo => bars,
        _ => 2 * bars,
    }
}

impl Channel {
    /// The displayed name of the strategy.
    pub fn name(&self) -> (r: &'static str)
        ensures
            r@ == channel_name(*self),
    {
        match self {
            Channel::Average => {
                proof {
                    reveal_strlit("Average");
                }
                "Average"
            },
            Channel::Left => {
                proof {
                    reveal_strlit("Left");
                }
                "Left"
            },
            Channel::Right => {
                proof {
                    reveal_strlit("Right");
                }
                "Right"
            },
            Channel::Stereo => {
                proof {
                    reveal_strlit("Stereo");
                }
                "Stereo"
            },
        }
    }

    /// The strategy a name selects, ignoring case; unknown names select
    /// `Stereo`.
    pub fn from_name(s: &str) -> (c: Channel)
        ensures
            c == channel_of_name(s@),
            (forall|i: int| 0 <= i < s@.len() ==> is_ascii_char(#[trigger] s@[i])) ==> c
                == channel_of_lowercase(s@.map_values(|x: char| ascii_lower(x))),
    {
        let lower = to_lowercase(s);
        let l = lower.as_str();
        proof {
            reveal_strlit("average");
            reveal_strlit("left");
            reveal_strlit("right");
            assert("average"@ =~= seq!['a', 'v', 'e', 'r', 'a', 'g', 'e']);
            assert("left"@ =~= seq!['l', 'e', 'f', 't']);
            assert("right"@ =~= seq!['r', 'i', 'g', 'h', 't']);
        }
        if same_text(l, "average") {
            Channel::Average
        } else if same_text(l, "left") {
            Channel::Left
        } else if same_text(l, "right") {
            Channel::Right
        } else {
            Channel::Stereo
        }
    }

    /// For `n` input bands, which bands make up each shown value.
    pub fn plan(&self, n: usize) -> (r: Vec<Pick>)
        ensures
            r@ == plan_of(*self, n as nat),
    {
        let h = n / 2;
        let mut r: Vec<Pick> = Vec::new();
        let len = match self {
            Channel::Average | Channel::Left => h,
            Channel::Right => n - h,
            Channel::Stereo => n,
        };
        let mut i: usize = 0;
        while i < len
            invariant
                h == n / 2,
                len == plan_of(*self, n as nat).len(),
                i <= len,
                r@ == plan_of(*self, n as nat).take(i as int),
            decreases len - i,
        {
            let p = match self {
                Channel::Average => Pick::Mean(i, h + i),
                Channel::Left => Pick::One(i),
                Channel::Right => Pick::One(h + i),
                Channel::Stereo => {
                    if i < h {
                        Pick::One(i)
                    } else {
                        Pick::One(n - 1 - (i - h))
                    }
                },
            };
            r.push(p);
            i = i + 1;
            assert(r@ =~= plan_of(*self, n as nat).take(i as int));
        }
        assert(r@ =~= plan_of(*self, n as nat));
        r
    }

    /// How many bands the spectrum analyser is asked for, to show `bars`
    /// bars: one per bar in stereo, two per bar otherwise.
    pub fn analyser_bars(&self, bars: usize) -> (r: usize)
        requires
            *self != Channel::Stereo ==> 2 * bars <= usize::MAX,
        ensures
            r == analyser_bars(*self, bars as nat),
    {
        match self {
            Channel::Stereo => bars,
            _ => bars * 2,
        }
    }
}

/// Lays out a buffer of bands in place as the stereo layout shows them: the
/// left half stays, the right half is mirrored, so that the buffer then
/// holds at each position the band that `plan_of(Stereo, n)` picks there.
pub fn mirror_right_half<T: Copy>(v: &mut Vec<T>)
    ensures
        final(v)@.len() == old(v)@.len(),
        final(v)@ =~= old(v)@.take((old(v)@.len() / 2) as int) + old(v)@.skip((old(v)@.len() / 2) as int).reverse(),
        forall|i: int|
            0 <= i < old(v)@.len() ==> (#[trigger] plan_of(Channel::Stereo, old(v)@.len())[i] matches Pick::One(k)
                && final(v)@[i] == old(v)@[k as int]),
{
    let n = v.len();
    let h = n / 2;
    let m = n - h;
    let ghost old_v = v@;
    let mut k: usize = 0;
    while k < m / 2
        invariant
            n == v.len(),
            h == n / 2,
            m == n - h,
            k <= m / 2,
            old_v.len() == n,
            forall|j: int| 0 <= j < h ==> #[trigger] v@[j] == old_v[j],
            forall|j: int| h <= j < h + k ==> #[trigger] v@[j] == old_v[n - 1 - (j - h)],
            forall|j: int| n - k <= j < n ==> #[trigger] v@[j] == old_v[h + (n - 1 - j)],
            forall|j: int| h + k <= j < n - k ==> #[trigger] v@[j] == old_v[j],
        decreases m / 2 - k,
    {
        let a = v[h + k];
        let b = v[n - 1 - k];
        v.set(h + k, b);
        v.set(n - 1 - k, a);
        k = k + 1;
    }
    proof {
        let w = old_v.take(h as int) + old_v.skip(h as int).reverse();
        assert forall|j: int| 0 <= j < n implies #[trigger] v@[j] == w[j] by {
            if j >= h {
                assert(w[j] == old_v[n - 1 - (j - h)]);
            }
        }
        assert(v@ =~= w);
        assert forall|i: int| 0 <= i < n implies (#[trigger] plan_of(Channel::Stereo, n as nat)[i] matches Pick::One(
            k,
        ) && v@[i] == old_v[k as int]) by {
            if i >= h {
                assert(v@[i] == old_v[n - 1 - (i - h)]);
            }
        }
    }
}

impl<'a> From<&'a str> for Channel {
    fn from(s: &'a str) -> (r: Self) {
        Channel::from_name(s)
    }
}

impl<'a> vstd::std_specs::convert::FromSpecImpl<&'a str> for Channel {
    open spec fn obeys_from_spec() -> bool {
        true
    }

    open spec fn from_spec(v: &'a str) -> Self {
        channel_of_name(v@)
    }
}

/// Whether every index a pick reads is below `n`.
pub open spec fn pick_in_bounds(p: Pick, n: nat) -> bool {
    match p {
        Pick::One(i) => i < n,
        Pick::Mean(i, j) => i < n && j < n,
    }
}

/// Every plan reads only existing bands, and has as many entries as the
/// strategy shows: half the bands for `Average` and `Left`, the other half
/// (with the middle band when `n` is odd) for `Right`, all of them for
/// `Stereo`.
pub proof fn lemma_plan_shape(c: Channel, n: nat)
    ensures
        forall|i: int| 0 <= i < plan_of(c, n).len() ==> pick_in_bounds(#[trigger] plan_of(c, n)[i], n),
        plan_of(c, n).len() == match c {
            Channel::Average | Channel::Left => n / 2,
            Channel::Right => (n - n / 2) as nat,
            Channel::Stereo => n,
        },
{
}

/// The stereo layout shows every band exactly once: it is a rearrangement
/// of the input, left half in order followed by the right half mirrored.
pub proof fn lemma_stereo_is_permutation(n: nat)
    requires
        n <= usize::MAX,
    ensures
        plan_of(Channel::Stereo, n).len() == n,
        forall|i: int, j: int|
            0 <= i < n && 0 <= j < n && i != j ==> plan_of(Channel::Stereo, n)[i] != plan_of(
                Channel::Stereo,
                n,
            )[j],
        forall|k: usize| k < n ==> #[trigger] plan_of(Channel::Stereo, n).contains(Pick::One(k)),
{
    let p = plan_of(Channel::Stereo, n);
    let h = n / 2;
    assert forall|i: int, j: int| 0 <= i < n && 0 <= j < n && i != j implies p[i] != p[j] by {
        let a: int = if i < h { i } else { n - 1 - (i - h) };
        let b: int = if j < h { j } else { n - 1 - (j - h) };
        assert(p[i] == Pick::One(a as usize));
        assert(p[j] == Pick::One(b as usize));
        assert(a != b);
    }
    assert forall|k: usize| k < n implies #[trigger] p.contains(Pick::One(k)) by {
        if k < h {
            assert(p[k as int] == Pick::One(k));
        } else {
            let i = n - 1 - k + h;
            assert(p[i] == Pick::One(k));
        }
    }
}

/// Every displayed name selects its own strategy again: the names are ASCII,
/// and lowering them gives the lowercase names that select them.
pub proof fn lemma_name_round_trip(c: Channel)
    ensures
        forall|i: int| 0 <= i < channel_name(c).len() ==> is_ascii_char(#[trigger] channel_name(c)[i]),
        channel_of_lowercase(channel_name(c).map_values(|x: char| ascii_lower(x))) == c,
{
    let lowered = channel_name(c).map_values(|x: char| ascii_lower(x));
    match c {
        Channel::Average => {
            assert(lowered =~= seq!['a', 'v', 'e', 'r', 'a', 'g', 'e']);
        },
        Channel::Left => {
            assert(lowered =~= seq!['l', 'e', 'f', 't']);
        },
        Channel::Right => {
            assert(lowered =~= seq!['r', 'i', 'g', 'h', 't']);
        },
        Channel::Stereo => {
            assert(lowered =~= seq!['s', 't', 'e', 'r', 'e', 'o']);
            assert(lowered.len() != 7 && lowered.len() != 4);
            assert(lowered[0] != 'r');
        },
    }
}

} // verus!
