//! Guest contracts: the call frame a contract sees, selector dispatch, and an
//! ERC20-shaped token.
use crate::abi::{
    address_of_word, bool_word, decode_address, decode_address_address_u64, decode_address_u64,
    encode_bool, encode_u64, u64_of_word, u64_word, valid_address_address_u64_args,
    valid_address_args, valid_address_u64_args, word,
};
use crate::loader::le_bytes;
use crate::storage::{mapping_slot, slot_value, Address, Mapping, Storage, ToBytes};
use vstd::prelude::*;

verus! {

/// What a contract call sees of the chain: its storage, its caller, and the
/// logs it has posted.
pub struct Context {
    pub storage: Storage,
    pub caller: Address,
    pub logs: Vec<Vec<u8>>,
}

/// The model of a call frame's context.
pub struct ContextView {
    pub storage: Map<u64, u64>,
    pub caller: Seq<u8>,
    pub logs: Seq<Seq<u8>>,
}

impl View for Context {
    type V = ContextView;

    open spec fn view(&self) -> ContextView {
        ContextView { storage: self.storage@, caller: self.caller.bytes@, logs: self.logs@.map_values(|l: Vec<u8>| l@) }
    }
}

impl Context {
    pub fn new(caller: Address) -> (r: Context)
        ensures
            r@.storage == Map::<u64, u64>::empty(),
            r@.caller == caller.bytes@,
            r@.logs == Seq::<Seq<u8>>::empty(),
    {
        let r = Context { storage: Storage::new(), caller, logs: Vec::new() };
        assert(r.logs@.map_values(|l: Vec<u8>| l@) =~= Seq::<Seq<u8>>::empty());
        r
    }
}

/// How a contract call ended.
pub enum Outcome {
    /// Ended successfully with this output.
    Return(Vec<u8>),
    /// Ended in failure.
    Revert,
}

/// The output of a call that returned, or `None` for one that reverted.
pub open spec fn outcome_view(o: Outcome) -> Option<Seq<u8>> {
    match o {
        Outcome::Return(v) => Some(v@),
        Outcome::Revert => None,
    }
}

/// The selector at the head of calldata: four bytes, little-endian.
pub open spec fn selector_of(calldata: Seq<u8>) -> u32 {
    (calldata[0] as u32) | (calldata[1] as u32) << 8 | (calldata[2] as u32) << 16 | (calldata[3] as u32) << 24
}

/// The payload of a calldata region: its little-endian length prefix, then
/// that many bytes; `None` where the region is too short for either.
pub open spec fn region_payload(region: Seq<u8>) -> Option<Seq<u8>> {
    if region.len() < 8 {
        None
    } else {
        let n = crate::storage::u64_from_le(region.subrange(0, 8));
        if n > region.len() - 8 {
            None
        } else {
            Some(region.subrange(8, 8 + n))
        }
    }
}

/// Reads the calldata payload out of a calldata region.
pub fn read_calldata(region: &[u8]) -> (r: Option<&[u8]>)
    ensures
        r is Some <==> region_payload(region@) is Some,
        r matches Some(p) ==> region_payload(region@) == Some(p@),
{
    if region.len() < 8 {
        return None;
    }
    let n: u64 = (region[0] as u64) | (region[1] as u64) << 8 | (region[2] as u64) << 16 | (region[3] as u64)
        << 24 | (region[4] as u64) << 32 | (region[5] as u64) << 40 | (region[6] as u64) << 48
        | (region[7] as u64) << 56;
    proof {
        let s = region@.subrange(0, 8);
        assert(s[0] == region@[0] && s[1] == region@[1] && s[2] == region@[2] && s[3] == region@[3]);
        assert(s[4] == region@[4] && s[5] == region@[5] && s[6] == region@[6] && s[7] == region@[7]);
    }
    if n > (region.len() - 8) as u64 {
        return None;
    }
    let end = 8 + n as usize;
    Some(vstd::slice::slice_subrange(region, 8, end))
}

/// A contract that the host can call: a receiver whose public methods are
/// picked by selector.
pub trait Contract {
    /// Number of public methods; selectors run from zero below it.
    spec fn method_count(&self) -> nat;

    /// The outcome of a call with `calldata` on the context `pre`, and the
    /// context after it.
    spec fn spec_call(&self, pre: ContextView, calldata: Seq<u8>) -> (Option<Seq<u8>>, ContextView);

    /// The outcome of public method `selector` run on argument bytes `args`
    /// from context `pre`, and the context after it.
    spec fn spec_method(&self, selector: u32, pre: ContextView, args: Seq<u8>) -> (Option<Seq<u8>>, ContextView);

    /// Runs a call whose calldata sits in a calldata region.
    fn call(&self, ctx: &mut Context, region: &[u8]) -> (r: Outcome)
        ensures
            region_payload(region@) is None ==> r is Revert && final(ctx)@ == old(ctx)@,
            region_payload(region@) matches Some(p) ==> (outcome_view(r), final(ctx)@) == self.spec_call(old(ctx)@, p),
    ;

    /// Decodes the selector and arguments of a call and runs the method.
    fn call_with_data(&self, ctx: &mut Context, calldata: &[u8]) -> (r: Outcome)
        ensures
            (outcome_view(r), final(ctx)@) == self.spec_call(old(ctx)@, calldata@),
            calldata@.len() < 4 ==> r is Revert && final(ctx)@ == old(ctx)@,
            calldata@.len() >= 4 && selector_of(calldata@) >= self.method_count() ==> r is Revert
                && final(ctx)@ == old(ctx)@,
            calldata@.len() >= 4 && selector_of(calldata@) < self.method_count() ==> self.spec_method(
                selector_of(calldata@),
                old(ctx)@,
                calldata@.subrange(4, calldata@.len() as int),
            ) == (outcome_view(r), final(ctx)@),
    ;
}

/// Log record of a transfer: sender, receiver, then the value little-endian.
pub open spec fn transfer_log(from: Seq<u8>, to: Seq<u8>, value: u64) -> Seq<u8> {
    from + to + le_bytes(value)
}

/// The only caller allowed to mint: the address whose last byte is 7.
pub open spec fn is_minter(caller: Seq<u8>) -> bool {
    caller == Address::spec_from_low_byte(7)
}

/// An ERC20-shaped token: one balance per address.
pub struct ERC20 {
    balance: Mapping<Address, u64>,
}

/// The balance that a storage view holds for `owner`.
pub open spec fn balance(id: u64, m: Map<u64, u64>, owner: Seq<u8>) -> u64 {
    slot_value(m, mapping_slot(owner, id))
}

/// The model of `transfer`: `None` where it reverts.
pub open spec fn spec_transfer(id: u64, pre: ContextView, from: Seq<u8>, to: Seq<u8>, value: u64) -> Option<ContextView> {
    let fb = balance(id, pre.storage, from);
    let tb = balance(id, pre.storage, to);
    if from == to || fb < value || tb + value > u64::MAX {
        None
    } else {
        Some(
            ContextView {
                storage: pre.storage.insert(mapping_slot(from, id), (fb - value) as u64).insert(
                    mapping_slot(to, id),
                    (tb + value) as u64,
                ),
                caller: pre.caller,
                logs: pre.logs.push(transfer_log(from, to, value)),
            },
        )
    }
}

/// The model of `mint`: `None` where it reverts.
pub open spec fn spec_mint(id: u64, pre: ContextView, to: Seq<u8>, value: u64) -> Option<ContextView> {
    let tb = balance(id, pre.storage, to);
    if !is_minter(pre.caller) || tb + value > u64::MAX {
        None
    } else {
        Some(
            ContextView {
                storage: pre.storage.insert(mapping_slot(to, id), (tb + value) as u64),
                caller: pre.caller,
                logs: pre.logs,
            },
        )
    }
}

/// The model of a token call. Selector 0 is `balance_of(address)`, 1 is
/// `transfer(address, address, uint64)`, 2 is `mint(address, uint64)`; any
/// other selector, short calldata or arguments that are not exactly their
/// strict encoding revert and change nothing.
pub open spec fn erc20_call(id: u64, pre: ContextView, calldata: Seq<u8>) -> (Option<Seq<u8>>, ContextView) {
    if calldata.len() < 4 {
        (None, pre)
    } else {
        erc20_method(id, selector_of(calldata), pre, calldata.subrange(4, calldata.len() as int))
    }
}

/// The model of token method `sel` on argument bytes `args`.
pub open spec fn erc20_method(id: u64, sel: u32, pre: ContextView, args: Seq<u8>) -> (Option<Seq<u8>>, ContextView) {
    if sel == 0 && valid_address_args(args) {
        (Some(u64_word(balance(id, pre.storage, address_of_word(word(args, 0))))), pre)
    } else if sel == 1 && valid_address_address_u64_args(args) {
        match spec_transfer(
            id,
            pre,
            address_of_word(word(args, 0)),
            address_of_word(word(args, 1)),
            u64_of_word(word(args, 2)),
        ) {
            Some(post) => (Some(bool_word(true)), post),
            None => (None, pre),
        }
    } else if sel == 2 && valid_address_u64_args(args) {
        match spec_mint(id, pre, address_of_word(word(args, 0)), u64_of_word(word(args, 1))) {
            Some(post) => (Some(bool_word(true)), post),
            None => (None, pre),
        }
    } else {
        (None, pre)
    }
}

/// The bytes of a transfer's log record.
fn transfer_log_bytes(from: &Address, to: &Address, value: u64) -> (r: Vec<u8>)
    ensures
        r@ == transfer_log(from.bytes@, to.bytes@, value),
{
    let mut log = from.to_bytes();
    let mut rest = to.to_bytes();
    log.append(&mut rest);
    let mut i: usize = 0;
    let ghost head = log@;
    while i < 8
        invariant
            i <= 8,
            head == from.bytes@ + to.bytes@,
            log@ == head + le_bytes(value).subrange(0, i as int),
        decreases 8 - i,
    {
        log.push(((value >> (8 * i) as u64) & 0xff) as u8);
        assert(log@ =~= head + le_bytes(value).subrange(0, i + 1));
        i = i + 1;
    }
    assert(le_bytes(value).subrange(0, 8) =~= le_bytes(value));
    log
}

impl ERC20 {
    /// The id of the balance mapping.
    pub closed spec fn balance_id(&self) -> u64 {
        self.balance.spec_id()
    }

    /// A token whose balances live under mapping id `id`.
    pub fn new(id: u64) -> (r: ERC20)
        ensures
            r.balance_id() == id,
    {
        ERC20 { balance: Mapping::new(id) }
    }

    pub fn balance_of(&self, ctx: &Context, owner: Address) -> (r: u64)
        ensures
            r == balance(self.balance_id(), ctx@.storage, owner.bytes@),
    {
        self.balance.read(&ctx.storage, owner)
    }

    /// Moves `value` from `from` to `to`; `None` (a revert) where the sender
    /// is the receiver, lacks the funds, or the receiver's balance would overflow.
    pub fn transfer(&self, ctx: &mut Context, from: Address, to: Address, value: u64) -> (r: Option<bool>)
        ensures
            match spec_transfer(self.balance_id(), old(ctx)@, from.bytes@, to.bytes@, value) {
                Some(post) => r == Some(true) && final(ctx)@ == post,
                None => r is None && final(ctx)@ == old(ctx)@,
            },
    {
        let from_balance = self.balance.read(&ctx.storage, from);
        let to_balance = self.balance.read(&ctx.storage, to);
        if from == to || from_balance < value || to_balance > u64::MAX - value {
            return None;
        }
        self.balance.write(&mut ctx.storage, from, from_balance - value);
        self.balance.write(&mut ctx.storage, to, to_balance + value);
        let log = transfer_log_bytes(&from, &to, value);
        let ghost logs0 = ctx.logs@;
        ctx.logs.push(log);
        assert(ctx.logs@.map_values(|l: Vec<u8>| l@) =~= logs0.map_values(|l: Vec<u8>| l@).push(
            transfer_log(from.bytes@, to.bytes@, value),
        ));
        Some(true)
    }

    /// Credits `value` to `to`; `None` (a revert) where the caller is not the
    /// minter or the balance would overflow.
    pub fn mint(&self, ctx: &mut Context, to: Address, value: u64) -> (r: Option<bool>)
        ensures
            match spec_mint(self.balance_id(), old(ctx)@, to.bytes@, value) {
                Some(post) => r == Some(true) && final(ctx)@ == post,
                None => r is None && final(ctx)@ == old(ctx)@,
            },
    {
        let minter = Address::from_low_byte(7);
        if ctx.caller != minter {
            return None;
        }
        let to_balance = self.balance.read(&ctx.storage, to);
        if to_balance > u64::MAX - value {
            return None;
        }
        self.balance.write(&mut ctx.storage, to, to_balance + value);
        Some(true)
    }

    /// Decodes a call frame and runs the method its selector names.
    pub fn dispatch(&self, ctx: &mut Context, calldata: &[u8]) -> (r: Outcome)
        ensures
            (outcome_view(r), final(ctx)@) == erc20_call(self.balance_id(), old(ctx)@, calldata@),
    {
        if calldata.len() < 4 {
            return Outcome::Revert;
        }
        let selector: u32 = (calldata[0] as u32) | (calldata[1] as u32) << 8 | (calldata[2] as u32) << 16
            | (calldata[3] as u32) << 24;
        let args = vstd::slice::slice_subrange(calldata, 4, calldata.len());
        if selector == 0 {
            match decode_address(args) {
                Some(owner) => Outcome::Return(encode_u64(self.balance_of(ctx, owner))),
                None => Outcome::Revert,
            }
        } else if selector == 1 {
            match decode_address_address_u64(args) {
                Some((from, to, value)) => match self.transfer(ctx, from, to, value) {
                    Some(b) => Outcome::Return(encode_bool(b)),
                    None => Outcome::Revert,
                },
                None => Outcome::Revert,
            }
        } else if selector == 2 {
            match decode_address_u64(args) {
                Some((to, value)) => match self.mint(ctx, to, value) {
                    Some(b) => Outcome::Return(encode_bool(b)),
                    None => Outcome::Revert,
                },
                None => Outcome::Revert,
            }
        } else {
            Outcome::Revert
        }
    }
}

impl Default for ERC20 {
    /// A token whose balances live under mapping id zero.
    fn default() -> (r: ERC20)
        ensures
            r.balance_id() == 0,
    {
        ERC20::new(0)
    }
}

impl Contract for ERC20 {
    open spec fn method_count(&self) -> nat {
        3
    }

    open spec fn spec_call(&self, pre: ContextView, calldata: Seq<u8>) -> (Option<Seq<u8>>, ContextView) {
        erc20_call(self.balance_id(), pre, calldata)
    }

    open spec fn spec_method(&self, selector: u32, pre: ContextView, args: Seq<u8>) -> (Option<Seq<u8>>, ContextView) {
        erc20_method(self.balance_id(), selector, pre, args)
    }

    fn call(&self, ctx: &mut Context, region: &[u8]) -> (r: Outcome) {
        match read_calldata(region) {
            Some(calldata) => self.dispatch(ctx, calldata),
            None => Outcome::Revert,
        }
    }

    fn call_with_data(&self, ctx: &mut Context, calldata: &[u8]) -> (r: Outcome) {
        self.dispatch(ctx, calldata)
    }
}

} // verus!

verus! {

/// A token call whose selector names a method and whose arguments are that
/// method's strict encoding runs exactly that method on the decoded
/// arguments; any other selector reverts and changes nothing.
pub proof fn lemma_selector_picks_method(id: u64, pre: ContextView, calldata: Seq<u8>)
    requires
        calldata.len() >= 4,
    ensures
        ({
            let sel = selector_of(calldata);
            let args = calldata.subrange(4, calldata.len() as int);
            let r = erc20_call(id, pre, calldata);
            &&& sel == 0 && valid_address_args(args) ==> r == (
                Some(u64_word(balance(id, pre.storage, address_of_word(word(args, 0))))),
                pre,
            )
            &&& sel == 1 && valid_address_address_u64_args(args) ==> r.1 == match spec_transfer(
                id,
                pre,
                address_of_word(word(args, 0)),
                address_of_word(word(args, 1)),
                u64_of_word(word(args, 2)),
            ) {
                Some(post) => post,
                None => pre,
            }
            &&& sel == 2 && valid_address_u64_args(args) ==> r.1 == match spec_mint(
                id,
                pre,
                address_of_word(word(args, 0)),
                u64_of_word(word(args, 1)),
            ) {
                Some(post) => post,
                None => pre,
            }
            &&& sel >= 3 ==> r == (None::<Seq<u8>>, pre)
        }),
{
}

/// Calldata too short to hold a selector reverts and changes nothing.
pub proof fn lemma_short_calldata_reverts(id: u64, pre: ContextView, calldata: Seq<u8>)
    requires
        calldata.len() < 4,
    ensures
        erc20_call(id, pre, calldata) == (None::<Seq<u8>>, pre),
{
}

} // verus!
