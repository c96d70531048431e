use vstd::prelude::*;

verus! {

/// The node's RPC endpoint (the default regtest port).
pub const RPC_URL: &'static str = "http://127.0.0.1:18443";

/// The RPC user name.
pub const RPC_USER: &'static str = "alice";

/// The RPC password.
pub const RPC_PASS: &'static str = "password";

/// The URL of the node itself, or of one of its wallets.
pub open spec fn wallet_url(wallet: Option<Seq<char>>) -> Seq<char> {
    match wallet {
        Some(w) => RPC_URL@ + "/wallet/"@ + w,
        None => RPC_URL@,
    }
}

/// The URL to connect to: the node itself, or one of its wallets.
pub fn rpc_url(wallet: Option<&str>) -> (url: String)
    ensures
        url@ == wallet_url(
            match wallet {
                Some(w) => Some(w@),
                None => None,
            },
        ),
{
    match wallet {
        Some(w) => {
            let mut url = RPC_URL.to_owned();
            url.append("/wallet/");
            url.append(w);
            url
        },
        None => RPC_URL.to_owned(),
    }
}

/// What the node answered to the last wallet call.
pub enum WalletEvent {
    /// `listwallets` answered with the names of the loaded wallets.
    Listed(Vec<String>),
    /// `loadwallet` succeeded.
    LoadSucceeded,
    /// `loadwallet` failed.
    LoadFailed,
    /// `createwallet` succeeded.
    CreateSucceeded,
}

/// The next wallet call to make.
#[derive(Debug, Clone, Copy, PartialEq, Eq)]
pub enum WalletAction {
    /// The wallet is loaded: nothing more to do.
    Done,
    /// Call `loadwallet`.
    Load,
    /// Call `createwallet`.
    Create,
}

/// `name` is among the listed wallets.
pub open spec fn is_listed(wallets: Seq<String>, name: Seq<char>) -> bool {
    exists|i: int| 0 <= i < wallets.len() && #[trigger] wallets[i]@ == name
}

/// The decision that follows each answer while making sure a wallet is loaded:
/// a listed wallet needs nothing more; otherwise it is loaded, and created
/// when loading fails.
pub open spec fn wallet_step(name: Seq<char>, event: WalletEvent) -> WalletAction {
    match event {
        WalletEvent::Listed(wallets) => if is_listed(wallets@, name) {
            WalletAction::Done
        } else {
            WalletAction::Load
        },
        WalletEvent::LoadSucceeded => WalletAction::Done,
        WalletEvent::LoadFailed => WalletAction::Create,
        WalletEvent::CreateSucceeded => WalletAction::Done,
    }
}

/// Whether `name` is among the listed wallets.
fn wallet_listed(wallets: &Vec<String>, name: &str) -> (res: bool)
    ensures
        res == is_listed(wallets@, name@),
        res <==> exists|i: int| 0 <= i < wallets@.len() && #[trigger] wallets@[i]@ == name@,
{
    let target = name.to_owned();
    let mut i: usize = 0;
    while i < wallets.len()
        invariant
            0 <= i <= wallets@.len(),
            target@ == name@,
            forall|j: int| 0 <= j < i ==> #[trigger] wallets@[j]@ != name@,
        decreases wallets@.len() - i,
    {
        if wallets[i] == target {
            return true;
        }
        i = i + 1;
    }
    false
}

/// The next call to make for wallet `name`, given the node's last answer.
pub fn ensure_wallet_step(name: &str, event: &WalletEvent) -> (action: WalletAction)
    ensures
        action == wallet_step(name@, *event),
        event matches WalletEvent::Listed(w) ==> (action == WalletAction::Done <==> exists|i: int|
            0 <= i < w@.len() && #[trigger] w@[i]@ == name@),
        event matches WalletEvent::Listed(w) ==> (action == WalletAction::Done || action
            == WalletAction::Load),
{
    match event {
        WalletEvent::Listed(wallets) => {
            if wallet_listed(wallets, name) {
                WalletAction::Done
            } else {
                WalletAction::Load
            }
        },
        WalletEvent::LoadSucceeded => WalletAction::Done,
        WalletEvent::LoadFailed => WalletAction::Create,
        WalletEvent::CreateSucceeded => WalletAction::Done,
    }
}

/// A wallet that appears anywhere in the listing is already loaded: no
/// further call is made for it.
pub proof fn lemma_listed_wallet_needs_nothing(name: Seq<char>, wallets: Vec<String>, i: int)
    requires
        0 <= i < wallets@.len(),
        wallets@[i]@ == name,
    ensures
        wallet_step(name, WalletEvent::Listed(wallets)) == WalletAction::Done,
{
}

/// A wallet that appears nowhere in the listing is loaded next.
pub proof fn lemma_unlisted_wallet_is_loaded(name: Seq<char>, wallets: Vec<String>)
    requires
        forall|i: int| 0 <= i < wallets@.len() ==> #[trigger] wallets@[i]@ != name,
    ensures
        wallet_step(name, WalletEvent::Listed(wallets)) == WalletAction::Load,
{
}

/// Making sure a wallet is loaded ends after at most two more calls once the
/// wallets are listed: nothing is called for a listed wallet; an unlisted one
/// is loaded, and created only when loading fails; each success ends it.
pub proof fn lemma_wallet_steps_end(name: Seq<char>, wallets: Vec<String>)
    ensures
        is_listed(wallets@, name) ==> wallet_step(name, WalletEvent::Listed(wallets))
            == WalletAction::Done,
        !is_listed(wallets@, name) ==> wallet_step(name, WalletEvent::Listed(wallets))
            == WalletAction::Load,
        wallet_step(name, WalletEvent::LoadSucceeded) == WalletAction::Done,
        wallet_step(name, WalletEvent::LoadFailed) == WalletAction::Create,
        wallet_step(name, WalletEvent::CreateSucceeded) == WalletAction::Done,
{
}

} // verus!
