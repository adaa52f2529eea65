//! The pull orchestrator: validates the ticket balance, debits a ticket,
//! samples a reward, credits the payout, draws the winning row, generates
//! the decorative symbols and renders the final text. Also the units
//! query. Each user's balances live under their identifier in the two
//! ledger stores; a missing ticket entry counts as 50 tickets, a missing
//! currency entry as 0 units.

use vstd::prelude::*;
use crate::decorative::{generate_decorative, spec_in_table};
use crate::digits::{push_decimal, spec_dec_chars};
use crate::draw::{draw_row, sample};
use crate::grid::{layout, spec_layout};
use crate::store::LedgerStore;
use crate::symbol::Symbol;
use crate::tier::RewardTier;

verus! {

/// Default ticket balance of a user with no stored entry.
pub const DEFAULT_TICKETS: u64 = 50;

/// A user's balance in a store, with the store's default for absent keys.
pub open spec fn spec_balance(m: Map<u64, u64>, user: u64, default: u64) -> u64 {
    if m.contains_key(user) {
        m[user]
    } else {
        default
    }
}

/// The credited balance: the old balance plus the payout, saturating at
/// the counter's maximum.
pub open spec fn spec_credit(cur: u64, payout: u64) -> u64 {
    if cur + payout <= u64::MAX {
        (cur + payout) as u64
    } else {
        u64::MAX
    }
}

/// How one pull for `user` with winning tier `tier` moves the two stores:
/// with no tickets, both are untouched; otherwise exactly one ticket is
/// debited and exactly the tier's payout is credited.
pub open spec fn spec_pull_transition(
    t0: Map<u64, u64>,
    t1: Map<u64, u64>,
    c0: Map<u64, u64>,
    c1: Map<u64, u64>,
    user: u64,
    tier: RewardTier,
) -> bool {
    let bal = spec_balance(t0, user, DEFAULT_TICKETS);
    if bal == 0 {
        t1 == t0 && c1 == c0
    } else {
        t1 == t0.insert(user, (bal - 1) as u64) && c1 == c0.insert(
            user,
            spec_credit(spec_balance(c0, user, 0), tier.spec_payout()),
        )
    }
}

/// The fixed decline text for a pull with no tickets.
pub open spec fn spec_decline_message() -> Seq<char> {
    "\u{274c}Unfortunately, you do not have any tickets to perform pulls."@
}

/// The full winning text: the rendered grid, the reaction glyph, and the
/// won amount.
pub open spec fn spec_win_message(
    w: Seq<char>,
    d: Seq<Seq<char>>,
    row: int,
    react: Seq<char>,
    payout: nat,
) -> Seq<char> {
    spec_layout(w, d, row) + react + ", Won "@ + spec_dec_chars(payout) + " Units!"@
}

/// The three symbol tables of the static configuration, one entry per
/// tier in tier order: the winning grid symbol, the reaction symbol
/// appended to the message, and the decorative pool entry.
pub struct SymbolTable {
    pub win: Vec<Symbol>,
    pub react: Vec<Symbol>,
    pub deco: Vec<Symbol>,
}

impl SymbolTable {
    pub open spec fn wf(self) -> bool {
        self.win@.len() == 8 && self.react@.len() == 8 && self.deco@.len() == 8
    }
}

/// The fixed "no tickets" reply.
fn decline_message() -> (r: String)
    ensures
        r@ == spec_decline_message(),
{
    String::from_str("\u{274c}Unfortunately, you do not have any tickets to perform pulls.")
}

/// Applies one pull whose random outcomes — winning tier, winning row and
/// decorative sequence — are given: checks and debits the ticket, credits
/// the payout, and renders the reply. With a zero ticket balance it
/// declines and touches nothing.
pub fn apply_pull(
    tickets: &mut LedgerStore,
    currency: &mut LedgerStore,
    user: u64,
    tier: RewardTier,
    row: u8,
    decorative: &Vec<Symbol>,
    table: &SymbolTable,
) -> (msg: String)
    requires
        old(tickets).wf(),
        old(currency).wf(),
        table.wf(),
        decorative@.len() == 6,
        row < 3,
    ensures
        final(tickets).wf(),
        final(currency).wf(),
        spec_pull_transition(old(tickets)@, final(tickets)@, old(currency)@, final(currency)@, user, tier),
        spec_balance(old(tickets)@, user, DEFAULT_TICKETS) == 0 ==> msg@ == spec_decline_message(),
        spec_balance(old(tickets)@, user, DEFAULT_TICKETS) > 0 ==> msg@ == spec_win_message(
            table.win@[tier.spec_idx()]@,
            decorative@.map_values(|s: Symbol| s@),
            row as int,
            table.react@[tier.spec_idx()]@,
            tier.spec_payout() as nat,
        ),
{
    let bal = tickets.get_or_default(user, DEFAULT_TICKETS);
    if bal == 0 {
        return decline_message();
    }
    tickets.set(user, bal - 1);
    let payout = tier.payout();
    let cur = currency.get_or_default(user, 0);
    let credited = if cur <= u64::MAX - payout {
        cur + payout
    } else {
        u64::MAX
    };
    currency.set(user, credited);
    let idx = tier.index();
    let mut msg = layout(&table.win[idx], decorative, row);
    msg.append(table.react[idx].glyph.as_str());
    msg.append(", Won ");
    push_decimal(&mut msg, payout);
    msg.append(" Units!");
    proof {
        assert(msg@ =~= spec_win_message(
            table.win@[tier.spec_idx()]@,
            decorative@.map_values(|s: Symbol| s@),
            row as int,
            table.react@[tier.spec_idx()]@,
            tier.spec_payout() as nat,
        ));
    }
    msg
}

/// One pull of the slot machine: draws the winning tier, the winning row
/// and the decorative sequence, then applies the outcome. The drawn tier
/// is random, so the stores' movement is stated for some tier; the
/// no-ticket case is exact.
pub fn pull(tickets: &mut LedgerStore, currency: &mut LedgerStore, user: u64, table: &SymbolTable) -> (msg:
    String)
    requires
        old(tickets).wf(),
        old(currency).wf(),
        table.wf(),
    ensures
        final(tickets).wf(),
        final(currency).wf(),
        exists|tier: RewardTier|
            spec_pull_transition(
                old(tickets)@,
                final(tickets)@,
                old(currency)@,
                final(currency)@,
                user,
                tier,
            ),
        spec_balance(old(tickets)@, user, DEFAULT_TICKETS) == 0 ==> final(tickets)@ == old(
            tickets,
        )@ && final(currency)@ == old(currency)@ && msg@ == spec_decline_message(),
        spec_balance(old(tickets)@, user, DEFAULT_TICKETS) > 0 ==> exists|
            tier: RewardTier,
            row: int,
            d: Seq<Seq<char>>,
        |
            #![auto]
            {
                &&& spec_pull_transition(
                    old(tickets)@,
                    final(tickets)@,
                    old(currency)@,
                    final(currency)@,
                    user,
                    tier,
                )
                &&& 0 <= row < 3
                &&& d.len() == 6
                &&& forall|i: int| 0 <= i < 6 ==> spec_in_table(#[trigger] d[i], table.deco@)
                &&& msg@ == spec_win_message(
                    table.win@[tier.spec_idx()]@,
                    d,
                    row,
                    table.react@[tier.spec_idx()]@,
                    tier.spec_payout() as nat,
                )
            },
{
    let tier = sample();
    let row = draw_row();
    let decorative = generate_decorative(&table.deco);
    let msg = apply_pull(tickets, currency, user, tier, row, &decorative, table);
    proof {
        assert(spec_pull_transition(
            old(tickets)@,
            final(tickets)@,
            old(currency)@,
            final(currency)@,
            user,
            tier,
        ));
        if spec_balance(old(tickets)@, user, DEFAULT_TICKETS) > 0 {
            let d = decorative@.map_values(|s: Symbol| s@);
            assert forall|i: int| 0 <= i < 6 implies spec_in_table(
                #[trigger] d[i],
                table.deco@,
            ) by {
                assert(spec_in_table(decorative@[i]@, table.deco@));
            }
            assert((row as int) < 3 && d.len() == 6 && msg@ == spec_win_message(
                table.win@[tier.spec_idx()]@,
                d,
                row as int,
                table.react@[tier.spec_idx()]@,
                tier.spec_payout() as nat,
            ));
        }
    }
    msg
}

/// The units query: reports the user's currency balance, which it never
/// changes.
pub fn handle_units_query(currency: &LedgerStore, user: u64) -> (msg: String)
    requires
        currency.wf(),
    ensures
        msg@ == "You have "@ + spec_dec_chars(spec_balance(currency@, user, 0) as nat)
            + " Units."@,
{
    let units = currency.get_or_default(user, 0);
    let mut msg = String::from_str("You have ");
    push_decimal(&mut msg, units);
    msg.append(" Units.");
    proof {
        assert(msg@ =~= "You have "@ + spec_dec_chars(spec_balance(currency@, user, 0) as nat)
            + " Units."@);
    }
    msg
}

/// A pull with no tickets leaves both balances unchanged; the transition
/// is the identity on both stores.
pub proof fn lemma_declined_pull_changes_nothing(
    t0: Map<u64, u64>,
    t1: Map<u64, u64>,
    c0: Map<u64, u64>,
    c1: Map<u64, u64>,
    user: u64,
    tier: RewardTier,
)
    requires
        spec_pull_transition(t0, t1, c0, c1, user, tier),
        spec_balance(t0, user, DEFAULT_TICKETS) == 0,
    ensures
        t1 == t0,
        c1 == c0,
{
}

/// A pull with tickets moves the balances by exactly one ticket and
/// exactly the sampled tier's payout.
pub proof fn lemma_pull_moves_exactly(
    t0: Map<u64, u64>,
    t1: Map<u64, u64>,
    c0: Map<u64, u64>,
    c1: Map<u64, u64>,
    user: u64,
    tier: RewardTier,
)
    requires
        spec_pull_transition(t0, t1, c0, c1, user, tier),
        spec_balance(t0, user, DEFAULT_TICKETS) > 0,
        spec_balance(c0, user, 0) + tier.spec_payout() <= u64::MAX,
    ensures
        spec_balance(t1, user, DEFAULT_TICKETS) == spec_balance(t0, user, DEFAULT_TICKETS) - 1,
        spec_balance(c1, user, 0) == spec_balance(c0, user, 0) + tier.spec_payout(),
{
}

/// A fresh user — no stored entry in either store — pulls against the
/// default balances: 50 tickets and 0 units, so one pull leaves 49
/// tickets and exactly the tier's payout.
pub proof fn lemma_fresh_user_defaults(
    t0: Map<u64, u64>,
    t1: Map<u64, u64>,
    c0: Map<u64, u64>,
    c1: Map<u64, u64>,
    user: u64,
    tier: RewardTier,
)
    requires
        spec_pull_transition(t0, t1, c0, c1, user, tier),
        !t0.contains_key(user),
        !c0.contains_key(user),
    ensures
        spec_balance(t1, user, DEFAULT_TICKETS) == 49,
        spec_balance(c1, user, 0) == tier.spec_payout(),
{
}

/// Pulls for distinct users never interfere: a pull for `user` leaves
/// every other user's ticket and currency balances as they were.
pub proof fn lemma_pull_isolation(
    t0: Map<u64, u64>,
    t1: Map<u64, u64>,
    c0: Map<u64, u64>,
    c1: Map<u64, u64>,
    user: u64,
    tier: RewardTier,
    other: u64,
)
    requires
        spec_pull_transition(t0, t1, c0, c1, user, tier),
        other != user,
    ensures
        spec_balance(t1, other, DEFAULT_TICKETS) == spec_balance(t0, other, DEFAULT_TICKETS),
        spec_balance(c1, other, 0) == spec_balance(c0, other, 0),
{
}

} // verus!
