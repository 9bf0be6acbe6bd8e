use vstd::prelude::*;
use crate::address::Address;
use anchor_lang::prelude::Pubkey;
use crate::cache::marginfi_accounts::{AccountView, CachedMarginfiAccount};

verus! {

/// What a strategy's preparation hands to its execution step.
#[derive(Clone, Copy, Debug)]
pub struct LiquidationParams {}

/// The basic strategy: every cached position is a candidate.
#[derive(Clone, Copy, Debug)]
pub struct BasicLiquidationStrategy {}

/// Why a strategy step failed.
#[derive(Clone, Copy, Debug, PartialEq, Eq, Structural)]
pub enum LiquidationError {
    /// The action could not be carried out.
    ExecutionFailed,
}

impl BasicLiquidationStrategy {
    pub fn new() -> (r: Self)
        ensures
            r == (BasicLiquidationStrategy {}),
    {
        BasicLiquidationStrategy {}
    }

    /// Evaluates a position; reads nothing but the position itself.
    pub fn prepare(&self, _account: &CachedMarginfiAccount) -> (r: Result<Option<LiquidationParams>, LiquidationError>)
        ensures
            r == Ok::<Option<LiquidationParams>, LiquidationError>(Some(LiquidationParams {})),
    {
        Ok(Some(LiquidationParams {}))
    }
}

/// The closed set of liquidation strategies.
#[derive(Clone, Copy, Debug)]
pub enum LiquidationStrategy {
    Basic(BasicLiquidationStrategy),
}

/// Whether preparing a position gives parameters; with the basic strategy
/// every position does.
pub open spec fn prepares_params(account: AccountView) -> bool {
    true
}

impl LiquidationStrategy {
    /// Evaluates a position with the selected strategy.
    pub fn prepare(&self, account: &CachedMarginfiAccount) -> (r: Result<Option<LiquidationParams>, LiquidationError>)
        ensures
            r is Ok && (r->Ok_0 is Some <==> prepares_params(account@)),
    {
        match self {
            LiquidationStrategy::Basic(s) => s.prepare(account),
        }
    }
}

/// Selects the strategy for a position: a pure function of the position.
pub fn choose_liquidation_strategy(_account: &CachedMarginfiAccount) -> (r: LiquidationStrategy)
    ensures
        r == LiquidationStrategy::Basic(BasicLiquidationStrategy {}),
{
    LiquidationStrategy::Basic(BasicLiquidationStrategy::new())
}

/// The order in which candidates are visited.
#[derive(Clone, Copy, Debug, PartialEq, Eq, Structural)]
pub enum HealthOrder {
    /// Lowest score first: the most eligible, and the invalid-health
    /// sentinel (the lowest score of all), come first.
    WorstFirst,
    /// Highest score first.
    BestFirst,
}

/// Whether a candidate with score `h1` may come before one with score `h2`.
pub open spec fn ranks_before(order: HealthOrder, h1: i64, h2: i64) -> bool {
    match order {
        HealthOrder::WorstFirst => h1 <= h2,
        HealthOrder::BestFirst => h1 >= h2,
    }
}

/// Whether `p` is a permutation of the positions `0..n`.
pub open spec fn is_permutation(p: Seq<int>, n: int) -> bool {
    &&& p.len() == n
    &&& forall|k: int| 0 <= k < n ==> 0 <= #[trigger] p[k] < n
    &&& forall|k1: int, k2: int| 0 <= k1 < k2 < n ==> #[trigger] p[k1] != #[trigger] p[k2]
}

/// Whether `out` lists the entries of `input` in an order given by `p`.
pub open spec fn permuted(out: Seq<(Address, i64)>, input: Seq<(Address, i64)>, p: Seq<int>) -> bool {
    &&& is_permutation(p, input.len() as int)
    &&& out.len() == input.len()
    &&& forall|k: int| 0 <= k < out.len() ==> #[trigger] out[k] == input[p[k]]
}

/// Whether the scores of `s` follow `order`.
pub open spec fn sorted_by(s: Seq<(Address, i64)>, order: HealthOrder) -> bool {
    forall|a: int, b: int| 0 <= a < b < s.len() ==> ranks_before(order, #[trigger] s[a].1, #[trigger] s[b].1)
}

/// Sorts health-index entries by score in the given order (stable).
pub fn sort_by_health(accounts: &Vec<(Address, i64)>, order: HealthOrder) -> (r: Vec<(Address, i64)>)
    ensures
        exists|p: Seq<int>| permuted(r@, accounts@, p),
        sorted_by(r@, order),
{
    let mut v: Vec<(Address, i64)> = Vec::new();
    let mut c: usize = 0;
    while c < accounts.len()
        invariant
            0 <= c <= accounts@.len(),
            v@ == accounts@.subrange(0, c as int),
        decreases accounts@.len() - c,
    {
        v.push(accounts[c]);
        c = c + 1;
        assert(v@ =~= accounts@.subrange(0, c as int));
    }
    assert(v@ =~= accounts@);
    let n = v.len();
    let ghost mut p: Seq<int> = Seq::new(n as nat, |k: int| k);
    let mut i: usize = 1;
    while i < n
        invariant
            n == v@.len(),
            n == accounts@.len(),
            1 <= i <= n || n == 0,
            permuted(v@, accounts@, p),
            forall|a: int, b: int| 0 <= a < b < i && b < n ==> ranks_before(order, #[trigger] v@[a].1, #[trigger] v@[b].1),
        decreases n - i,
    {
        let mut j: usize = i;
        while j > 0 && !before(order, v[j - 1].1, v[j].1)
            invariant
                n == v@.len(),
                n == accounts@.len(),
                0 <= j <= i < n,
                permuted(v@, accounts@, p),
                forall|a: int, b: int| 0 <= a < b <= i && b != j && a != j ==> ranks_before(order, #[trigger] v@[a].1, #[trigger] v@[b].1),
                forall|a: int, b: int| 0 <= a < j && j < b <= i ==> ranks_before(order, #[trigger] v@[a].1, #[trigger] v@[b].1),
                forall|b: int| j < b <= i ==> ranks_before(order, v@[j as int].1, #[trigger] v@[b].1),
            decreases j,
        {
            let x = v[j - 1];
            let y = v[j];
            v.set(j - 1, y);
            v.set(j, x);
            proof {
                let jj = j as int;
                p = p.update(jj - 1, p[jj]).update(jj, p[jj - 1]);
            }
            j = j - 1;
        }
        i = i + 1;
    }
    v
}

/// Whether a score may come before another under `order`.
fn before(order: HealthOrder, h1: i64, h2: i64) -> (r: bool)
    ensures
        r == ranks_before(order, h1, h2),
{
    match order {
        HealthOrder::WorstFirst => h1 <= h2,
        HealthOrder::BestFirst => h1 >= h2,
    }
}

/// Seed of a pool's liquidity vault authority.
pub const LIQUIDITY_VAULT_AUTHORITY_SEED: [u8; 20] = [
    108, 105, 113, 117, 105, 100, 105, 116, 121, 95, 118, 97, 117, 108, 116, 95, 97, 117, 116, 104,
];

/// Address of the Token-2022 program.
pub const TOKEN_2022_PROGRAM_ID: [u8; 32] = [
    6, 221, 246, 225, 238, 117, 143, 222, 24, 66, 93, 188, 228, 108, 205, 218, 182, 26, 252, 77,
    131, 185, 13, 39, 254, 189, 249, 40, 216, 161, 139, 252,
];

/// The program-derived address of `program_id` for the seeds `seed` and `key`.
pub uninterp spec fn program_address(seed: Seq<u8>, key: Seq<u8>, program_id: Seq<u8>) -> Option<Seq<u8>>;

/// Relies on `Pubkey::try_find_program_address` (the one `anchor_lang` exports)
/// with the seeds `[seed, key]`; the bump seed is dropped.
#[verifier::external_body]
fn find_program_address(seed: &[u8], key: &Address, program_id: &Address) -> (r: Option<Address>)
    ensures
        match r {
            Some(a) => program_address(seed@, key.bytes@, program_id.bytes@) == Some(a.bytes@),
            None => program_address(seed@, key.bytes@, program_id.bytes@) is None,
        },
{
    Pubkey::try_find_program_address(&[seed, &key.bytes], &Pubkey::new_from_array(program_id.bytes))
        .map(|(a, _)| Address::new(a.to_bytes()))
}

/// The authority of a pool's liquidity vault: the program-derived address of
/// the lending program for the liquidity seed and the pool's address.
pub fn find_bank_liquidity_vault_authority(bank_pk: &Address, program_id: &Address) -> (r: Option<Address>)
    ensures
        match r {
            Some(a) => program_address(LIQUIDITY_VAULT_AUTHORITY_SEED@, bank_pk.bytes@, program_id.bytes@)
                == Some(a.bytes@),
            None => program_address(LIQUIDITY_VAULT_AUTHORITY_SEED@, bank_pk.bytes@, program_id.bytes@) is None,
        },
{
    find_program_address(&LIQUIDITY_VAULT_AUTHORITY_SEED, bank_pk, program_id)
}

/// An account reference of an instruction.
#[derive(Clone, Copy, Debug)]
pub struct AccountMeta {
    pub pubkey: Address,
    pub is_signer: bool,
    pub is_writable: bool,
}

/// Appends the mint as a read-only account when the token program is
/// Token-2022, which needs it; otherwise leaves the list as it is.
pub fn maybe_add_bank_mint(accounts: &mut Vec<AccountMeta>, mint: Address, token_program: &Address)
    ensures
        token_program.bytes@ == TOKEN_2022_PROGRAM_ID@ ==> final(accounts)@ == old(accounts)@.push(
            AccountMeta { pubkey: mint, is_signer: false, is_writable: false },
        ),
        token_program.bytes@ != TOKEN_2022_PROGRAM_ID@ ==> final(accounts)@ == old(accounts)@,
{
    let token_2022 = Address::new(TOKEN_2022_PROGRAM_ID);
    if token_program.same(&token_2022) {
        accounts.push(AccountMeta { pubkey: mint, is_signer: false, is_writable: false });
    } else {
        assert(token_program.bytes@ != TOKEN_2022_PROGRAM_ID@) by {
            if token_program.bytes@ == TOKEN_2022_PROGRAM_ID@ {
                assert(token_program.bytes@ =~= token_2022.bytes@);
                assert(token_program.bytes =~= token_2022.bytes);
            }
        }
    }
}

} // verus!
