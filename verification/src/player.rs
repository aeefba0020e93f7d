//! A player and the legal-move resolver: which cards a seat may put on the
//! current trick, given its hand, the led color, the current master card
//! and the trump color.

use vstd::prelude::*;

use crate::card::{Card, Color};
use crate::errors::BeloteErrorKind;
use crate::hand::Hand;
use crate::position::Position;
use crate::turn::Turn;

verus! {

pub open spec fn is_trump(card: Card, trump_color: Color) -> bool {
    card.color == trump_color
}

pub open spec fn beats(card: Card, master_card: Card, trump_color: Color) -> bool {
    card.spec_power(trump_color) > master_card.spec_power(trump_color)
}

pub open spec fn has_higher_trump(hand: Seq<Card>, master_card: Card, trump_color: Color) -> bool {
    exists|j: int|
        0 <= j < hand.len() && is_trump(#[trigger] hand[j], trump_color) && beats(
            hand[j],
            master_card,
            trump_color,
        )
}

pub open spec fn has_trump(hand: Seq<Card>, trump_color: Color) -> bool {
    exists|j: int| 0 <= j < hand.len() && is_trump(#[trigger] hand[j], trump_color)
}

pub open spec fn has_color(hand: Seq<Card>, color: Color) -> bool {
    exists|j: int| 0 <= j < hand.len() && (#[trigger] hand[j]).color == color
}

/// Whether `card` is a legal play from `hand` against a trick whose led
/// color is `called_color` and whose master card is `master_card`.
///
/// If trumps were led: go over the master if possible, else under, and only
/// without any trump is the rest free. If the led color is held, it must be
/// followed. Otherwise, when the seat's own team masters the trick, every
/// non-trump discard is allowed, plus the overtrumping trumps if any exist,
/// else the weaker ones; when the opponents master it, a held trump must be
/// played.
pub open spec fn may_play(
    card: Card,
    hand: Seq<Card>,
    called_color: Color,
    master_card: Card,
    team_is_master: bool,
    trump_color: Color,
) -> bool {
    if called_color == trump_color {
        if has_higher_trump(hand, master_card, trump_color) {
            is_trump(card, trump_color) && beats(card, master_card, trump_color)
        } else if has_trump(hand, trump_color) {
            is_trump(card, trump_color)
        } else {
            !is_trump(card, trump_color)
        }
    } else if has_color(hand, called_color) {
        card.color == called_color
    } else if team_is_master {
        !is_trump(card, trump_color) || (if has_higher_trump(hand, master_card, trump_color) {
            beats(card, master_card, trump_color)
        } else {
            true
        })
    } else if has_trump(hand, trump_color) {
        is_trump(card, trump_color)
    } else {
        !is_trump(card, trump_color) && card.color != called_color
    }
}

/// `cards` is exactly the legal subset of `hand`: every entry is a legal
/// hand card, and every legal hand card is an entry.
pub open spec fn choices_ok(
    cards: Seq<Card>,
    hand: Seq<Card>,
    called_color: Color,
    master_card: Card,
    team_is_master: bool,
    trump_color: Color,
) -> bool {
    &&& forall|k: int|
        0 <= k < cards.len() ==> hand.contains(#[trigger] cards[k]) && may_play(
            cards[k],
            hand,
            called_color,
            master_card,
            team_is_master,
            trump_color,
        )
    &&& forall|j: int|
        0 <= j < hand.len() && may_play(
            #[trigger] hand[j],
            hand,
            called_color,
            master_card,
            team_is_master,
            trump_color,
        ) ==> cards.contains(hand[j])
}

/// Legal-move non-emptiness: whatever the trick state, a non-empty hand
/// always holds at least one legal card.
pub proof fn lemma_legal_moves_nonempty(
    hand: Seq<Card>,
    called_color: Color,
    master_card: Card,
    team_is_master: bool,
    trump_color: Color,
)
    requires
        hand.len() > 0,
    ensures
        exists|j: int|
            0 <= j < hand.len() && may_play(
                #[trigger] hand[j],
                hand,
                called_color,
                master_card,
                team_is_master,
                trump_color,
            ),
{
    if called_color == trump_color {
        if has_higher_trump(hand, master_card, trump_color) {
            let j = choose|j: int|
                0 <= j < hand.len() && is_trump(hand[j], trump_color) && beats(
                    hand[j],
                    master_card,
                    trump_color,
                );
            assert(may_play(hand[j], hand, called_color, master_card, team_is_master, trump_color));
        } else if has_trump(hand, trump_color) {
            let j = choose|j: int| 0 <= j < hand.len() && is_trump(hand[j], trump_color);
            assert(may_play(hand[j], hand, called_color, master_card, team_is_master, trump_color));
        } else {
            assert(!is_trump(hand[0], trump_color));
            assert(may_play(hand[0], hand, called_color, master_card, team_is_master, trump_color));
        }
    } else if has_color(hand, called_color) {
        let j = choose|j: int| 0 <= j < hand.len() && hand[j].color == called_color;
        assert(may_play(hand[j], hand, called_color, master_card, team_is_master, trump_color));
    } else if team_is_master {
        if has_higher_trump(hand, master_card, trump_color) {
            let j = choose|j: int|
                0 <= j < hand.len() && is_trump(hand[j], trump_color) && beats(
                    hand[j],
                    master_card,
                    trump_color,
                );
            assert(may_play(hand[j], hand, called_color, master_card, team_is_master, trump_color));
        } else {
            assert(may_play(hand[0], hand, called_color, master_card, team_is_master, trump_color));
        }
    } else if has_trump(hand, trump_color) {
        let j = choose|j: int| 0 <= j < hand.len() && is_trump(hand[j], trump_color);
        assert(may_play(hand[j], hand, called_color, master_card, team_is_master, trump_color));
    } else {
        assert(!is_trump(hand[0], trump_color));
        assert(may_play(hand[0], hand, called_color, master_card, team_is_master, trump_color));
    }
}

/// Follow-suit correctness: a seat holding at least one card of the led
/// non-trump color may play only cards of that color.
pub proof fn lemma_follow_suit(
    hand: Seq<Card>,
    called_color: Color,
    master_card: Card,
    team_is_master: bool,
    trump_color: Color,
)
    requires
        called_color != trump_color,
        has_color(hand, called_color),
    ensures
        forall|c: Card|
            #[trigger] may_play(c, hand, called_color, master_card, team_is_master, trump_color)
                ==> c.color == called_color,
{
}

/// Trump obligation: when trumps were led and the seat holds a trump above
/// the current master, every legal card is such an overtrumping trump;
/// weaker trumps and every non-trump card are excluded.
pub proof fn lemma_trump_obligation(
    hand: Seq<Card>,
    master_card: Card,
    team_is_master: bool,
    trump_color: Color,
)
    requires
        has_higher_trump(hand, master_card, trump_color),
    ensures
        forall|c: Card|
            #[trigger] may_play(c, hand, trump_color, master_card, team_is_master, trump_color)
                ==> is_trump(c, trump_color) && beats(c, master_card, trump_color),
{
}

/// Own-team exemption: when the seat's own team masters the trick on a led
/// non-trump color and the seat holds a non-trump card, at least one
/// non-trump card stays legal even if trumps are held. (With trumps led,
/// or with nothing but trumps in hand, only trumps are legal.)
pub proof fn lemma_own_team_exemption(
    hand: Seq<Card>,
    called_color: Color,
    master_card: Card,
    trump_color: Color,
)
    requires
        called_color != trump_color,
        exists|j: int| 0 <= j < hand.len() && !is_trump(#[trigger] hand[j], trump_color),
    ensures
        exists|j: int|
            0 <= j < hand.len() && !is_trump(#[trigger] hand[j], trump_color) && may_play(
                hand[j],
                hand,
                called_color,
                master_card,
                true,
                trump_color,
            ),
{
    if has_color(hand, called_color) {
        // the followed color itself is not the trump color
        let j = choose|j: int| 0 <= j < hand.len() && (#[trigger] hand[j]).color == called_color;
        assert(!is_trump(hand[j], trump_color));
        assert(may_play(hand[j], hand, called_color, master_card, true, trump_color));
    } else {
        let j = choose|j: int| 0 <= j < hand.len() && !is_trump(#[trigger] hand[j], trump_color);
        assert(may_play(hand[j], hand, called_color, master_card, true, trump_color));
    }
}

#[derive(Clone, Copy, Debug, Default, PartialEq, Eq, Structural)]
pub struct Player {
    pub random: bool,
}

impl Player {
    pub fn new(random: bool) -> (r: Self)
        ensures
            r.random == random,
    {
        Self { random }
    }

    pub fn random(&self) -> (r: bool)
        ensures
            r == self.random,
    {
        self.random
    }

    /// The legal moves of `position` holding `hand` against `turn`. The
    /// result is never empty for a non-empty hand. Refused when the hand
    /// size does not match the turn number, or when the trick records a led
    /// color without a master card or the other way round.
    pub fn choices(
        &self,
        hand: &Hand,
        position: &Position,
        turn: &Turn,
        trump_color: Color,
    ) -> (r: Result<Vec<Card>, BeloteErrorKind>)
        ensures
            r.is_ok() <==> {
                &&& 1 <= turn.number <= 8
                &&& hand.cards@.len() == 9 - turn.number
                &&& (turn.called_color is Some <==> turn.spec_master_card() is Some)
            },
            r matches Ok(cards) ==> {
                &&& hand.cards@.len() > 0 ==> cards@.len() > 0
                &&& forall|k: int| 0 <= k < cards@.len() ==> hand.cards@.contains(#[trigger] cards@[k])
                &&& match (turn.called_color, turn.spec_master_card()) {
                    (None, None) => cards@ == hand.cards@,
                    (Some(called_color), Some(master_card)) => choices_ok(
                        cards@,
                        hand.cards@,
                        called_color,
                        master_card,
                        turn.master_position.spec_team() == position.spec_team(),
                        trump_color,
                    ),
                    _ => false,
                }
            },
    {
        broadcast use vstd::seq_lib::lemma_seq_contains_after_push;

        if turn.number() < 1 || turn.number() > 8 {
            return Err(BeloteErrorKind::InvalidCase("bad number of cards for player".to_owned()));
        }
        let expected: u64 = 8 - turn.number() + 1;
        if hand.len() as u64 != expected {
            return Err(BeloteErrorKind::InvalidCase("bad number of cards for player".to_owned()));
        }
        match (turn.called_color(), turn.master_card()) {
            (None, None) => {
                let mut all: Vec<Card> = Vec::new();
                let mut i: usize = 0;
                while i < hand.cards.len()
                    invariant
                        i <= hand.cards@.len(),
                        all@ == hand.cards@.subrange(0, i as int),
                    decreases hand.cards@.len() - i,
                {
                    all.push(hand.cards[i]);
                    proof {
                        assert(all@ =~= hand.cards@.subrange(0, i + 1));
                    }
                    i = i + 1;
                }
                proof {
                    assert(all@ =~= hand.cards@);
                }
                Ok(all)
            },
            (Some(called_color), Some(master_card)) => {
                let ghost h = hand.cards@;
                let team_is_master = turn.master_team() == position.team();
                let mut trumps: Vec<Card> = Vec::new();
                let mut trumps_less: Vec<Card> = Vec::new();
                let mut trumps_more: Vec<Card> = Vec::new();
                let mut other_colors: Vec<Card> = Vec::new();
                let mut same_colors: Vec<Card> = Vec::new();
                let mut i: usize = 0;
                while i < hand.cards.len()
                    invariant
                        i <= h.len(),
                        h == hand.cards@,
                        trumps@.len() + same_colors@.len() + other_colors@.len() == i,
                        trumps_more@.len() + trumps_less@.len() == trumps@.len(),
                        forall|k: int|
                            0 <= k < trumps@.len() ==> h.contains(#[trigger] trumps@[k])
                                && is_trump(trumps@[k], trump_color),
                        forall|k: int|
                            0 <= k < trumps_more@.len() ==> h.contains(#[trigger] trumps_more@[k])
                                && is_trump(trumps_more@[k], trump_color) && beats(
                                trumps_more@[k],
                                master_card,
                                trump_color,
                            ),
                        forall|k: int|
                            0 <= k < trumps_less@.len() ==> h.contains(#[trigger] trumps_less@[k])
                                && is_trump(trumps_less@[k], trump_color) && !beats(
                                trumps_less@[k],
                                master_card,
                                trump_color,
                            ),
                        forall|k: int|
                            0 <= k < same_colors@.len() ==> h.contains(#[trigger] same_colors@[k])
                                && same_colors@[k].color == called_color && !is_trump(
                                same_colors@[k],
                                trump_color,
                            ),
                        forall|k: int|
                            0 <= k < other_colors@.len() ==> h.contains(#[trigger] other_colors@[k])
                                && !is_trump(other_colors@[k], trump_color) && other_colors@[k].color
                                != called_color,
                        forall|j: int|
                            0 <= j < i && is_trump(#[trigger] h[j], trump_color) ==> trumps@.contains(
                                h[j],
                            ),
                        forall|j: int|
                            0 <= j < i && is_trump(#[trigger] h[j], trump_color) && beats(
                                h[j],
                                master_card,
                                trump_color,
                            ) ==> trumps_more@.contains(h[j]),
                        forall|j: int|
                            0 <= j < i && is_trump(#[trigger] h[j], trump_color) && !beats(
                                h[j],
                                master_card,
                                trump_color,
                            ) ==> trumps_less@.contains(h[j]),
                        forall|j: int|
                            0 <= j < i && !is_trump(#[trigger] h[j], trump_color) && h[j].color
                                == called_color ==> same_colors@.contains(h[j]),
                        forall|j: int|
                            0 <= j < i && !is_trump(#[trigger] h[j], trump_color) && h[j].color
                                != called_color ==> other_colors@.contains(h[j]),
                    decreases h.len() - i,
                {
                    let card = hand.cards[i];
                    proof {
                        assert(h[i as int] == card);
                        assert(h.contains(card));
                    }
                    if card.color() == trump_color {
                        trumps.push(card);
                        if card.power(trump_color) > master_card.power(trump_color) {
                            trumps_more.push(card);
                        } else {
                            trumps_less.push(card);
                        }
                    } else if card.color() == called_color {
                        same_colors.push(card);
                    } else {
                        other_colors.push(card);
                    }
                    i = i + 1;
                }
                proof {
                    // the exec emptiness tests line up with the spec-level
                    // hand predicates
                    if trumps_more@.len() > 0 {
                        let c = trumps_more@[0];
                        let w = choose|j: int| 0 <= j < h.len() && h[j] == c;
                        assert(is_trump(h[w], trump_color) && beats(h[w], master_card, trump_color));
                        assert(has_higher_trump(h, master_card, trump_color));
                    }
                    if has_higher_trump(h, master_card, trump_color) {
                        let j = choose|j: int|
                            0 <= j < h.len() && is_trump(h[j], trump_color) && beats(
                                h[j],
                                master_card,
                                trump_color,
                            );
                        assert(trumps_more@.contains(h[j]));
                        assert(trumps_more@.len() > 0);
                    }
                    if trumps@.len() > 0 {
                        let c = trumps@[0];
                        let w = choose|j: int| 0 <= j < h.len() && h[j] == c;
                        assert(is_trump(h[w], trump_color));
                        assert(has_trump(h, trump_color));
                    }
                    if has_trump(h, trump_color) {
                        let j = choose|j: int| 0 <= j < h.len() && is_trump(h[j], trump_color);
                        assert(trumps@.contains(h[j]));
                        assert(trumps@.len() > 0);
                    }
                    if same_colors@.len() > 0 && called_color != trump_color {
                        let c = same_colors@[0];
                        let w = choose|j: int| 0 <= j < h.len() && h[j] == c;
                        assert(h[w].color == called_color);
                        assert(has_color(h, called_color));
                    }
                    if has_color(h, called_color) && called_color != trump_color {
                        let j = choose|j: int| 0 <= j < h.len() && h[j].color == called_color;
                        assert(!is_trump(h[j], trump_color));
                        assert(same_colors@.contains(h[j]));
                        assert(same_colors@.len() > 0);
                    }
                }
                let ghost team_master_flag = turn.master_position.spec_team()
                    == position.spec_team();
                let result: Vec<Card> = if called_color == trump_color {
                    if trumps_more.len() > 0 {
                        trumps_more
                    } else if trumps_less.len() > 0 {
                        proof {
                            assert(trumps@.len() > 0);
                        }
                        trumps_less
                    } else {
                        proof {
                            assert(trumps@.len() == 0);
                            assert(same_colors@.len() == 0) by {
                                if same_colors@.len() > 0 {
                                    assert(same_colors@[0].color == called_color && !is_trump(
                                        same_colors@[0],
                                        trump_color,
                                    ));
                                }
                            }
                            assert(other_colors@.len() == h.len());
                        }
                        other_colors
                    }
                } else if same_colors.len() > 0 {
                    same_colors
                } else if team_is_master {
                    let mut free = other_colors;
                    let ghost free0 = free@;
                    if trumps_more.len() == 0 {
                        let ghost less0 = trumps_less@;
                        free.append(&mut trumps_less);
                        proof {
                            assert(free@ == free0 + less0);
                            assert(less0.len() == trumps@.len());
                            assert(forall|k: int|
                                0 <= k < free@.len() ==> h.contains(#[trigger] free@[k]) && may_play(
                                    free@[k],
                                    h,
                                    called_color,
                                    master_card,
                                    team_master_flag,
                                    trump_color,
                                ));
                            assert forall|j: int|
                                0 <= j < h.len() && may_play(
                                    #[trigger] h[j],
                                    h,
                                    called_color,
                                    master_card,
                                    team_master_flag,
                                    trump_color,
                                ) implies free@.contains(h[j]) by {
                                if is_trump(h[j], trump_color) {
                                    assert(less0.contains(h[j]));
                                    let w = choose|w: int|
                                        0 <= w < less0.len() && less0[w] == h[j];
                                    assert(free@[free0.len() + w] == h[j]);
                                } else {
                                    assert(h[j].color != called_color);
                                    assert(free0.contains(h[j]));
                                    let w = choose|w: int| 0 <= w < free0.len() && free0[w] == h[j];
                                    assert(free@[w] == h[j]);
                                }
                            }
                        }
                    } else {
                        let ghost more0 = trumps_more@;
                        free.append(&mut trumps_more);
                        proof {
                            assert(free@ == free0 + more0);
                            assert forall|j: int|
                                0 <= j < h.len() && may_play(
                                    #[trigger] h[j],
                                    h,
                                    called_color,
                                    master_card,
                                    team_master_flag,
                                    trump_color,
                                ) implies free@.contains(h[j]) by {
                                if is_trump(h[j], trump_color) {
                                    assert(beats(h[j], master_card, trump_color));
                                    assert(more0.contains(h[j]));
                                    let w = choose|w: int|
                                        0 <= w < more0.len() && more0[w] == h[j];
                                    assert(free@[free0.len() + w] == h[j]);
                                } else {
                                    assert(h[j].color != called_color);
                                    assert(free0.contains(h[j]));
                                    let w = choose|w: int| 0 <= w < free0.len() && free0[w] == h[j];
                                    assert(free@[w] == h[j]);
                                }
                            }
                            assert(free@.len() > 0 || h.len() == 0);
                        }
                    }
                    proof {
                        if h.len() > 0 && free@.len() == 0 {
                            assert(trumps@.len() == 0 && same_colors@.len() == 0
                                && other_colors@.len() == 0);
                            assert(h.len() == 0);
                        }
                    }
                    free
                } else if trumps.len() > 0 {
                    trumps
                } else {
                    proof {
                        assert(other_colors@.len() == h.len());
                    }
                    other_colors
                };
                Ok(result)
            },
            _ => Err(BeloteErrorKind::InvalidCase("no choices for player".to_owned())),
        }
    }
}

} // verus!
