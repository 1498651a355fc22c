//! Which GitHub token to use: the tokens of the configuration in turn, without
//! those that have reached their limit.

use vstd::prelude::*;

use crate::config::Config;

verus! {

/// How many whole seconds must have been exceeded since the last time before
/// exhausted tokens are checked again.
pub const TOKEN_RECHECK_INTERVAL: u64 = 600;

/// A moment: seconds since 1970-01-01T00:00:00Z, and nanoseconds added to them.
#[derive(Debug, Clone, Copy)]
pub struct Timestamp {
    pub seconds: i64,
    pub nanos: u32,
}

impl Timestamp {
    /// The nanoseconds since 1970-01-01T00:00:00Z.
    pub open spec fn as_nanos(self) -> int {
        self.seconds * 1_000_000_000 + self.nanos
    }
}

/// Whether exhausted tokens are to be checked again: more than the interval has
/// passed in whole seconds, or the clock has gone back.
pub open spec fn recheck_due(now: int, last_check: int) -> bool {
    now < last_check || (now - last_check) / 1_000_000_000 > TOKEN_RECHECK_INTERVAL
}

/// Whether exhausted tokens are to be checked again.
pub fn is_recheck_due(now: Timestamp, last_check: Timestamp) -> (r: bool)
    ensures
        r == recheck_due(now.as_nanos(), last_check.as_nanos()),
{
    let n: i128 = now.seconds as i128 * 1_000_000_000 + now.nanos as i128;
    let l: i128 = last_check.seconds as i128 * 1_000_000_000 + last_check.nanos as i128;
    n < l || (n - l) / 1_000_000_000 > TOKEN_RECHECK_INTERVAL as i128
}

/// The exhausted tokens, when they were last checked, if ever, and whose turn it is.
pub struct TokenPool {
    exhausted: Vec<String>,
    last_check: Option<Timestamp>,
    next: usize,
}

/// What a pool is in specifications.
pub struct PoolView {
    pub exhausted: Set<Seq<char>>,
    pub last_check: Option<int>,
    pub next: int,
}

impl View for TokenPool {
    type V = PoolView;

    closed spec fn view(&self) -> PoolView {
        PoolView {
            exhausted: crate::text::strings(self.exhausted@).to_set(),
            last_check: match self.last_check {
                Some(t) => Some(t.as_nanos()),
                None => None,
            },
            next: self.next as int,
        }
    }
}

/// A token is marked as exhausted.
pub open spec fn marked(pool: PoolView, token: Seq<char>) -> PoolView {
    PoolView { exhausted: pool.exhausted.insert(token), ..pool }
}

/// Tokens are no longer marked as exhausted.
pub open spec fn released(pool: PoolView, recovered: Set<Seq<char>>) -> PoolView {
    PoolView { exhausted: pool.exhausted.difference(recovered), ..pool }
}

/// The tokens that can be used, in order.
pub open spec fn available(tokens: Seq<Seq<char>>, exhausted: Set<Seq<char>>) -> Seq<Seq<char>> {
    tokens.filter(|t: Seq<char>| !exhausted.contains(t))
}

/// The token whose turn it is; empty where none can be used.
pub open spec fn chosen(pool: PoolView, tokens: Seq<Seq<char>>) -> Seq<char> {
    let usable = available(tokens, pool.exhausted);
    if usable.len() == 0 {
        Seq::empty()
    } else {
        usable[pool.next % usable.len() as int]
    }
}

/// The pool after a token was chosen: the turn passes on, starting over after the
/// largest machine word, and stays where none could be used.
pub open spec fn after_choice(pool: PoolView, tokens: Seq<Seq<char>>) -> PoolView {
    if available(tokens, pool.exhausted).len() == 0 {
        pool
    } else if pool.next == usize::MAX {
        PoolView { next: 0, ..pool }
    } else {
        PoolView { next: pool.next + 1, ..pool }
    }
}

/// What is to be done about a request for a token.
#[derive(Debug)]
pub enum TokenStep {
    /// Load the configuration, then ask again.
    LoadConfig,
    /// Find out which of these tokens can be used again, then ask
    /// `get_rechecked_token`.
    Verify(Vec<String>),
    /// Use this token; none can be used where it is empty.
    Use(String),
}

impl TokenPool {
    /// No token is listed twice.
    pub closed spec fn wf(&self) -> bool {
        crate::text::strings(self.exhausted@).no_duplicates()
    }

    /// A pool without exhausted tokens.
    pub fn new() -> (r: TokenPool)
        ensures
            r.wf(),
            r@ == (PoolView { exhausted: Set::empty(), last_check: None, next: 0 }),
    {
        let exhausted: Vec<String> = Vec::new();
        assert(crate::text::strings(exhausted@).to_set() =~= Set::empty());
        TokenPool { exhausted, last_check: None, next: 0 }
    }

    /// Whether a token is exhausted.
    pub fn is_exhausted(&self, token: &String) -> (r: bool)
        ensures
            r == self@.exhausted.contains(token@),
    {
        lists(&self.exhausted, token)
    }

    /// Removes the tokens `recovered` from those exhausted.
    fn release(&mut self, recovered: &Vec<String>)
        requires
            old(self).wf(),
        ensures
            final(self).wf(),
            final(self)@ == released(old(self)@, crate::text::strings(recovered@).to_set()),
    {
        let ghost all = crate::text::strings(self.exhausted@);
        let ghost gone = crate::text::strings(recovered@);
        let mut kept: Vec<String> = Vec::new();
        for i in 0..self.exhausted.len()
            invariant
                all == crate::text::strings(self.exhausted@),
                gone == crate::text::strings(recovered@),
                all.no_duplicates(),
                crate::text::strings(kept@).no_duplicates(),
                forall|t: Seq<char>| #[trigger]
                    crate::text::strings(kept@).contains(t) <==> all.take(i as int).contains(t)
                        && !gone.contains(t),
        {
            let ghost before = crate::text::strings(kept@);
            assert(all[i as int] == self.exhausted@[i as int]@);
            let found = lists(recovered, &self.exhausted[i]);
            assert(all.take(i + 1) =~= all.take(i as int).push(all[i as int]));
            assert forall|t: Seq<char>| #[trigger] all.take(i + 1).contains(t) <==> all.take(
                i as int,
            ).contains(t) || t == all[i as int] by {
                crate::text::lemma_push_contains(all.take(i as int), all[i as int], t);
            }
            if !found {
                kept.push(self.exhausted[i].clone());
                assert(crate::text::strings(kept@) =~= before.push(all[i as int]));
                assert(!all.take(i as int).contains(all[i as int]));
                assert(!before.contains(all[i as int]));
                assert(before.push(all[i as int]).no_duplicates());
                assert forall|t: Seq<char>| #[trigger]
                    crate::text::strings(kept@).contains(t) <==> before.contains(t) || t
                        == all[i as int] by {
                    crate::text::lemma_push_contains(before, all[i as int], t);
                }
            }
        }
        assert(all.take(self.exhausted@.len() as int) =~= all);
        assert(crate::text::strings(kept@).to_set() =~= all.to_set().difference(gone.to_set()));
        self.exhausted = kept;
    }

    /// Picks the token whose turn it is.
    fn choose_token(&mut self, tokens: &Vec<String>) -> (r: String)
        requires
            old(self).wf(),
        ensures
            final(self).wf(),
            r@ == chosen(old(self)@, crate::text::strings(tokens@)),
            final(self)@ == after_choice(old(self)@, crate::text::strings(tokens@)),
    {
        let ghost all = crate::text::strings(tokens@);
        let ghost keep = |t: Seq<char>| !self@.exhausted.contains(t);
        let mut usable: Vec<&String> = Vec::new();
        let ghost mut usable_view: Seq<Seq<char>> = Seq::empty();
        proof {
            reveal(Seq::filter);
            assert(usable_view =~= all.take(0).filter(keep));
        }
        for i in 0..tokens.len()
            invariant
                all == crate::text::strings(tokens@),
                keep == (|t: Seq<char>| !self@.exhausted.contains(t)),
                usable_view == all.take(i as int).filter(keep),
                usable.len() == usable_view.len(),
                forall|j: int|
                    0 <= j < usable.len() ==> (#[trigger] usable[j])@ == usable_view[j],
        {
            proof {
                reveal(Seq::filter);
                assert(all.take(i + 1).drop_last() =~= all.take(i as int));
                assert(all[i as int] == tokens@[i as int]@);
            }
            if !self.is_exhausted(&tokens[i]) {
                usable.push(&tokens[i]);
                proof {
                    usable_view = usable_view.push(all[i as int]);
                }
            }
        }
        assert(all.take(tokens@.len() as int) =~= all);
        assert(usable_view == available(all, self@.exhausted));
        if usable.len() == 0 {
            return String::new();
        }
        let turn: usize = self.next;
        self.next = turn.wrapping_add(1);
        usable[turn % usable.len()].clone()
    }
}

/// Whether `list` holds `token`.
fn lists(list: &Vec<String>, token: &String) -> (r: bool)
    ensures
        r == crate::text::strings(list@).contains(token@),
{
    let ghost all = crate::text::strings(list@);
    for i in 0..list.len()
        invariant
            all == crate::text::strings(list@),
            forall|j: int| 0 <= j < i ==> #[trigger] all[j] != token@,
    {
        assert(all[i as int] == list@[i as int]@);
        if list[i] == *token {
            assert(all.contains(token@));
            return true;
        }
    }
    false
}

/// Marks a token as exhausted.
pub fn mark_token_exhausted(pool: &mut TokenPool, token: String)
    requires
        old(pool).wf(),
    ensures
        final(pool).wf(),
        final(pool)@ == marked(old(pool)@, token@),
{
    let ghost before = crate::text::strings(pool.exhausted@);
    if !lists(&pool.exhausted, &token) {
        pool.exhausted.push(token);
        assert(crate::text::strings(pool.exhausted@) =~= before.push(token@));
        assert forall|t: Seq<char>| #[trigger]
            before.push(token@).contains(t) <==> before.contains(t) || t == token@ by {
            crate::text::lemma_push_contains(before, token@, t);
        }
        assert(before.push(token@).to_set() =~= before.to_set().insert(token@));
    } else {
        assert(before.to_set() =~= before.to_set().insert(token@));
    }
}

/// When exhausted tokens were last checked, `first_check` where they never were.
pub open spec fn checked_last(pool: PoolView, first_check: int) -> int {
    match pool.last_check {
        Some(t) => t,
        None => first_check,
    }
}

/// Deals with a request for a token, made at `now`, under the configuration in
/// force; `load_attempted` says whether it was loaded for this request. A pool
/// whose tokens were never checked counts as checked at `first_check`.
pub fn get_github_token(
    pool: &mut TokenPool,
    config: &Option<Config>,
    load_attempted: bool,
    now: Timestamp,
    first_check: Timestamp,
) -> (r: TokenStep)
    requires
        old(pool).wf(),
    ensures
        final(pool).wf(),
        match crate::config::config_view(*config) {
            None => {
                &&& final(pool)@ == old(pool)@
                &&& if load_attempted {
                    r matches TokenStep::Use(token) && token@.len() == 0
                } else {
                    r is LoadConfig
                }
            },
            Some(config) => if config.tokens.len() == 0 {
                &&& final(pool)@ == old(pool)@
                &&& r matches TokenStep::Use(token)
                &&& token@.len() == 0
            } else if recheck_due(
                now.as_nanos(),
                checked_last(old(pool)@, first_check.as_nanos()),
            ) {
                &&& final(pool)@ == (PoolView { last_check: Some(now.as_nanos()), ..old(pool)@ })
                &&& r matches TokenStep::Verify(tokens)
                &&& crate::text::strings(tokens@).no_duplicates()
                &&& crate::text::strings(tokens@).to_set() == old(pool)@.exhausted
            } else {
                &&& final(pool)@ == after_choice(
                    PoolView {
                        last_check: Some(checked_last(old(pool)@, first_check.as_nanos())),
                        ..old(pool)@
                    },
                    config.tokens,
                )
                &&& r matches TokenStep::Use(token)
                &&& token@ == chosen(old(pool)@, config.tokens)
            },
        },
{
    let config = match config {
        Some(config) => config,
        None => {
            return if load_attempted {
                TokenStep::Use(String::new())
            } else {
                TokenStep::LoadConfig
            };
        },
    };
    let tokens = &config.github.tokens;
    if tokens.len() == 0 {
        return TokenStep::Use(String::new());
    }
    let last_check = match pool.last_check {
        Some(t) => t,
        None => first_check,
    };
    if is_recheck_due(now, last_check) {
        pool.last_check = Some(now);
        let exhausted = pool.exhausted.clone();
        assert(crate::text::strings(exhausted@) =~= crate::text::strings(pool.exhausted@));
        TokenStep::Verify(exhausted)
    } else {
        pool.last_check = Some(last_check);
        TokenStep::Use(pool.choose_token(tokens))
    }
}

/// Ends a request that waited for exhausted tokens to be checked: `recovered` can
/// be used again. The token is empty where none can be used.
pub fn get_rechecked_token(pool: &mut TokenPool, config: &Config, recovered: &Vec<String>) -> (r:
    String)
    requires
        old(pool).wf(),
    ensures
        final(pool).wf(),
        r@ == chosen(
            released(old(pool)@, crate::text::strings(recovered@).to_set()),
            config@.tokens,
        ),
        final(pool)@ == after_choice(
            released(old(pool)@, crate::text::strings(recovered@).to_set()),
            config@.tokens,
        ),
{
    pool.release(recovered);
    pool.choose_token(&config.github.tokens)
}

/// The pool after `k` choices in a row.
pub open spec fn after_choices(pool: PoolView, tokens: Seq<Seq<char>>, k: nat) -> PoolView
    decreases k,
{
    if k == 0 {
        pool
    } else {
        after_choice(after_choices(pool, tokens, (k - 1) as nat), tokens)
    }
}

/// A token can be used exactly where the configuration holds it and it is not
/// exhausted.
pub proof fn law_available(tokens: Seq<Seq<char>>, exhausted: Set<Seq<char>>, token: Seq<char>)
    ensures
        available(tokens, exhausted).contains(token) <==> tokens.contains(token)
            && !exhausted.contains(token),
    decreases tokens.len(),
{
    reveal(Seq::filter);
    if tokens.len() > 0 {
        let init = tokens.drop_last();
        law_available(init, exhausted, token);
        crate::text::lemma_push_contains(init, tokens.last(), token);
        assert(init.push(tokens.last()) =~= tokens);
        crate::text::lemma_push_contains(available(init, exhausted), tokens.last(), token);
    }
}

/// Where any token can be used, the one chosen is a token of the configuration
/// that is not exhausted.
pub proof fn law_chosen_usable(pool: PoolView, tokens: Seq<Seq<char>>)
    requires
        exists|t: Seq<char>| #[trigger] tokens.contains(t) && !pool.exhausted.contains(t),
    ensures
        tokens.contains(chosen(pool, tokens)),
        !pool.exhausted.contains(chosen(pool, tokens)),
{
    let usable = available(tokens, pool.exhausted);
    let t = choose|t: Seq<char>| #[trigger] tokens.contains(t) && !pool.exhausted.contains(t);
    law_available(tokens, pool.exhausted, t);
    let i = pool.next % usable.len() as int;
    assert(usable.contains(usable[i]));
    law_available(tokens, pool.exhausted, usable[i]);
}

/// Where every token is exhausted, none is chosen and the turn does not pass on.
pub proof fn law_all_exhausted(pool: PoolView, tokens: Seq<Seq<char>>)
    requires
        forall|t: Seq<char>| #[trigger] tokens.contains(t) ==> pool.exhausted.contains(t),
    ensures
        chosen(pool, tokens).len() == 0,
        after_choice(pool, tokens) == pool,
{
    let usable = available(tokens, pool.exhausted);
    if usable.len() > 0 {
        assert(usable.contains(usable[0]));
        law_available(tokens, pool.exhausted, usable[0]);
    }
}

/// A token marked as exhausted is not chosen, however many choices follow. (Where
/// no token can be used the choice is empty, as an empty token would be.)
pub proof fn law_marked_not_chosen(
    pool: PoolView,
    tokens: Seq<Seq<char>>,
    token: Seq<char>,
    k: nat,
)
    requires
        token.len() > 0 || available(tokens, marked(pool, token).exhausted).len() > 0,
    ensures
        chosen(after_choices(marked(pool, token), tokens, k), tokens) != token,
{
    let start = marked(pool, token);
    lemma_choices_keep_exhausted(start, tokens, k);
    let usable = available(tokens, start.exhausted);
    if usable.len() > 0 {
        let i = after_choices(start, tokens, k).next % usable.len() as int;
        assert(usable.contains(usable[i]));
        law_available(tokens, start.exhausted, usable[i]);
    }
}

/// Choosing tokens exhausts none.
proof fn lemma_choices_keep_exhausted(pool: PoolView, tokens: Seq<Seq<char>>, k: nat)
    ensures
        after_choices(pool, tokens, k).exhausted == pool.exhausted,
        after_choices(pool, tokens, k).last_check == pool.last_check,
    decreases k,
{
    if k > 0 {
        lemma_choices_keep_exhausted(pool, tokens, (k - 1) as nat);
    }
}

/// Tokens are chosen in turn: the choice after `k` others is the token `k` places
/// on, going round. (The turn starts over after the largest machine word.)
pub proof fn law_rotation(pool: PoolView, tokens: Seq<Seq<char>>, k: nat)
    requires
        0 <= pool.next,
        pool.next + k <= usize::MAX,
        available(tokens, pool.exhausted).len() > 0,
    ensures
        after_choices(pool, tokens, k) == (PoolView { next: pool.next + k, ..pool }),
        chosen(after_choices(pool, tokens, k), tokens) == available(
            tokens,
            pool.exhausted,
        )[(pool.next + k) % available(tokens, pool.exhausted).len() as int],
    decreases k,
{
    if k > 0 {
        law_rotation(pool, tokens, (k - 1) as nat);
    }
}

/// As many choices in a row as there are usable tokens choose each of them.
pub proof fn law_every_token_in_turn(pool: PoolView, tokens: Seq<Seq<char>>, token: Seq<char>)
    requires
        0 <= pool.next,
        pool.next + available(tokens, pool.exhausted).len() <= usize::MAX,
        tokens.contains(token),
        !pool.exhausted.contains(token),
    ensures
        exists|k: nat|
            k < available(tokens, pool.exhausted).len() && #[trigger] chosen(
                after_choices(pool, tokens, k),
                tokens,
            ) == token,
{
    let usable = available(tokens, pool.exhausted);
    law_available(tokens, pool.exhausted, token);
    let i = choose|i: int| 0 <= i < usable.len() && usable[i] == token;
    let n = usable.len() as int;
    let at = pool.next % n;
    let k = if at <= i {
        (i - at) as nat
    } else {
        (i - at + n) as nat
    };
    law_rotation(pool, tokens, k);
    assert((pool.next + k) % n == i) by {
        vstd::arithmetic::div_mod::lemma_fundamental_div_mod(pool.next, n);
        let q = pool.next / n;
        if at <= i {
            vstd::arithmetic::div_mod::lemma_fundamental_div_mod_converse(
                pool.next + k,
                n,
                q,
                i,
            );
        } else {
            assert(n * (q + 1) == n * q + n) by (nonlinear_arith);
            vstd::arithmetic::div_mod::lemma_fundamental_div_mod_converse(
                pool.next + k,
                n,
                q + 1,
                i,
            );
        }
    }
}

/// Marking a token twice is marking it once, and releasing it undoes the mark
/// where it was not exhausted before.
pub proof fn law_mark_and_release(pool: PoolView, token: Seq<char>)
    ensures
        marked(marked(pool, token), token) == marked(pool, token),
        !pool.exhausted.contains(token) ==> released(
            marked(pool, token),
            Set::empty().insert(token),
        ) == pool,
{
    assert(pool.exhausted.insert(token).insert(token) =~= pool.exhausted.insert(token));
    if !pool.exhausted.contains(token) {
        assert(pool.exhausted.insert(token).difference(Set::empty().insert(token))
            =~= pool.exhausted);
    }
}

/// Where every exhausted token has recovered, all tokens of the configuration can
/// be used.
pub proof fn law_all_recovered(pool: PoolView, tokens: Seq<Seq<char>>, recovered: Set<Seq<char>>)
    requires
        pool.exhausted.subset_of(recovered),
    ensures
        available(tokens, released(pool, recovered).exhausted) == tokens,
    decreases tokens.len(),
{
    reveal(Seq::filter);
    assert(released(pool, recovered).exhausted =~= Set::empty());
    if tokens.len() > 0 {
        law_all_recovered(pool, tokens.drop_last(), recovered);
        assert(tokens.drop_last().push(tokens.last()) =~= tokens);
    }
}

/// A token that is exhausted and has not recovered is not chosen after a check.
pub proof fn law_unrecovered_not_chosen(
    pool: PoolView,
    tokens: Seq<Seq<char>>,
    recovered: Set<Seq<char>>,
    token: Seq<char>,
)
    requires
        pool.exhausted.contains(token),
        !recovered.contains(token),
        token.len() > 0 || available(tokens, released(pool, recovered).exhausted).len() > 0,
    ensures
        chosen(released(pool, recovered), tokens) != token,
{
    let exhausted = released(pool, recovered).exhausted;
    let usable = available(tokens, exhausted);
    if usable.len() > 0 {
        let i = pool.next % usable.len() as int;
        assert(usable.contains(usable[i]));
        law_available(tokens, exhausted, usable[i]);
    }
}

/// After a check at `t`, the next one is due once 601 seconds have passed, and not
/// before unless the clock has gone back.
pub proof fn law_recheck_interval(pool: PoolView, t: int, now: int, first_check: int)
    requires
        pool.last_check == Some(t),
    ensures
        recheck_due(now, checked_last(pool, first_check)) <==> now < t || now - t
            >= 601_000_000_000,
{
}

/// A moment is counted in nanoseconds, a thousand million of them to the second.
pub proof fn law_timestamp(t: Timestamp)
    ensures
        t.as_nanos() == t.seconds * 1_000_000_000 + t.nanos,
{
}

/// A check is due exactly where the clock has gone back or 601 seconds have passed.
pub proof fn law_recheck_due(now: int, last_check: int)
    ensures
        recheck_due(now, last_check) <==> now < last_check || now >= last_check + 601_000_000_000,
{
}

/// The last check is the one made, or `first_check` where none was made.
pub proof fn law_checked_last(pool: PoolView, first_check: int)
    ensures
        pool.last_check is Some ==> checked_last(pool, first_check) == pool.last_check->0,
        pool.last_check is None ==> checked_last(pool, first_check) == first_check,
{
}

/// Marking a token exhausts that token and no other, and changes nothing else.
pub proof fn law_marked(pool: PoolView, token: Seq<char>, t: Seq<char>)
    ensures
        marked(pool, token).exhausted.contains(t) <==> t == token || pool.exhausted.contains(t),
        marked(pool, token).last_check == pool.last_check,
        marked(pool, token).next == pool.next,
{
}

/// Releasing tokens takes away their marks and no others, and changes nothing else.
pub proof fn law_released(pool: PoolView, recovered: Set<Seq<char>>, t: Seq<char>)
    ensures
        released(pool, recovered).exhausted.contains(t) <==> pool.exhausted.contains(t)
            && !recovered.contains(t),
        released(pool, recovered).last_check == pool.last_check,
        released(pool, recovered).next == pool.next,
{
}

/// The usable tokens of two lists in a row are those of the one, then those of the
/// other; a single token is usable exactly where it is not exhausted.
pub proof fn law_available_in_parts(
    tokens: Seq<Seq<char>>,
    more: Seq<Seq<char>>,
    exhausted: Set<Seq<char>>,
    token: Seq<char>,
)
    ensures
        available(tokens + more, exhausted) == available(tokens, exhausted) + available(
            more,
            exhausted,
        ),
        !exhausted.contains(token) ==> available(seq![token], exhausted) == seq![token],
        exhausted.contains(token) ==> available(seq![token], exhausted).len() == 0,
    decreases more.len(),
{
    reveal(Seq::filter);
    let none: Seq<Seq<char>> = Seq::empty();
    assert(seq![token].drop_last() =~= none);
    assert(available(none, exhausted) =~= none);
    assert(!exhausted.contains(token) ==> available(seq![token], exhausted) =~= seq![token]);
    if more.len() == 0 {
        assert(tokens + more =~= tokens);
        assert(available(tokens, exhausted) + available(more, exhausted) =~= available(
            tokens,
            exhausted,
        ));
    } else {
        assert((tokens + more).drop_last() =~= tokens + more.drop_last());
        law_available_in_parts(tokens, more.drop_last(), exhausted, token);
        assert(available(tokens + more, exhausted) =~= available(tokens, exhausted) + available(
            more,
            exhausted,
        ));
    }
}

/// Where a token can be used, the turn passes on by one, starting over at zero after
/// the largest machine word; the marks and the last check stay.
pub proof fn law_turn(pool: PoolView, tokens: Seq<Seq<char>>)
    ensures
        after_choice(pool, tokens).exhausted == pool.exhausted,
        after_choice(pool, tokens).last_check == pool.last_check,
        available(tokens, pool.exhausted).len() == 0 ==> after_choice(pool, tokens).next
            == pool.next,
        available(tokens, pool.exhausted).len() > 0 && pool.next != usize::MAX ==> after_choice(
            pool,
            tokens,
        ).next == pool.next + 1,
        available(tokens, pool.exhausted).len() > 0 && pool.next == usize::MAX ==> after_choice(
            pool,
            tokens,
        ).next == 0,
{
}

/// The token chosen is the usable one whose place is the turn, counted round.
pub proof fn law_chosen_by_turn(pool: PoolView, tokens: Seq<Seq<char>>, rounds: int, place: int)
    requires
        0 <= place < available(tokens, pool.exhausted).len(),
        pool.next == rounds * available(tokens, pool.exhausted).len() + place,
    ensures
        chosen(pool, tokens) == available(tokens, pool.exhausted)[place],
{
    let n = available(tokens, pool.exhausted).len() as int;
    assert(rounds * n == n * rounds) by (nonlinear_arith);
    vstd::arithmetic::div_mod::lemma_fundamental_div_mod_converse(pool.next, n, rounds, place);
}

} // verus!
