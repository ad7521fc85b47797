//! The signing identity: a seed phrase, the template of a derivation path,
//! an account index, and the key derived from them for one chain.
//!
//! The derivation itself (BIP-39, BIP-32, secp256k1, Keccak) is the work of
//! `ethers`. This module names its result, `mnemonic_key`, and proves what
//! the wallet does with it: a wallet always holds the key that the
//! derivation gives for its phrase, template and index.

use vstd::prelude::*;
use crate::error::{Error, WalletField};
use crate::path::{account_path, check_path, fault_text, make_account_path, path_fault};
use crate::text::{bytes_hex_text, lemma_bytes_hex_injective, lower_text};

verus! {

/// What deriving a key from the seed phrase `phrase` along the derivation
/// path `path` gives: the bytes of the private key and the bytes of its
/// address, or the text of the reason why there is no such key.
pub uninterp spec fn mnemonic_key(phrase: Seq<char>, path: Seq<char>) -> Result<
    (Seq<u8>, Seq<u8>),
    Seq<char>,
>;

/// The mixed-case hexadecimal text, with `0x` in front, that writes the
/// 20 bytes `address` with their checksum.
pub uninterp spec fn checksum_text(address: Seq<u8>) -> Seq<char>;

/// A derivation's outcome with its bytes and characters as sequences.
pub open spec fn key_material(r: Result<(Vec<u8>, Vec<u8>), String>) -> Result<
    (Seq<u8>, Seq<u8>),
    Seq<char>,
> {
    match r {
        Ok(pair) => Ok((pair.0@, pair.1@)),
        Err(e) => Err(e@),
    }
}

/// Calls `ethers::signers::MnemonicBuilder::<English>`: `phrase`, given the
/// phrase as a string so that it is never taken for the path of a file, then
/// `derivation_path`, then `build`; and hands out the key's bytes and the
/// address of the wallet that was built.
///
/// Assumed: the outcome depends on the phrase and the path alone. The path
/// may hold no hardened index of 2^31 or more, and no more than 255 indices:
/// the parser adds 2^31 to a hardened index, and the derivation adds one to
/// a depth of one byte at each index, both without a check.
#[verifier::external_body]
fn derive_key(phrase: &str, path: &str) -> (r: Result<(Vec<u8>, Vec<u8>), String>)
    requires
        path_fault(path@) is None,
    ensures
        key_material(r) == mnemonic_key(phrase@, path@),
{
    let wallet = ethers::signers::MnemonicBuilder::<ethers::signers::coins_bip39::English>::default()
        .phrase(ethers::types::PathOrString::String(phrase.to_owned()))
        .derivation_path(path)
        .map_err(|e| e.to_string())?
        .build()
        .map_err(|e| e.to_string())?;
    let address = ethers::signers::Signer::address(&wallet);
    Ok((wallet.signer().to_bytes().to_vec(), address.as_bytes().to_vec()))
}

/// The address `address` in plain hexadecimal: `0x` and two lower-case
/// digits for each byte.
pub open spec fn plain_address_text(address: Seq<u8>) -> Seq<char> {
    seq!['0', 'x'] + bytes_hex_text(address)
}

/// Calls `ethers::utils::to_checksum` on the address made of the 20 bytes,
/// without a chain id.
///
/// Assumed: the text depends on the bytes alone; and it is the address in
/// plain hexadecimal but for the case of its letters, which carries the
/// checksum.
#[verifier::external_body]
fn to_checksum(address: &Vec<u8>) -> (text: String)
    requires
        address@.len() == 20,
    ensures
        text@ == checksum_text(address@),
        lower_text(text@) == plain_address_text(address@),
{
    ethers::utils::to_checksum(&ethers::types::Address::from_slice(address), None)
}

/// The key of one account, bound to one chain.
#[derive(Debug)]
pub struct Signer {
    key: Vec<u8>,
    address: Vec<u8>,
    chain_id: u32,
}

/// What a `Signer` holds.
pub struct SignerView {
    pub key: Seq<u8>,
    pub address: Seq<u8>,
    pub chain_id: u32,
}

impl View for Signer {
    type V = SignerView;

    closed spec fn view(&self) -> SignerView {
        SignerView { key: self.key@, address: self.address@, chain_id: self.chain_id }
    }
}

/// The signer of account `idx` under `template`, derived from `phrase` for
/// chain `chain_id`; or the text of the reason why there is none.
pub open spec fn derived_signer(
    phrase: Seq<char>,
    template: Seq<char>,
    idx: u32,
    chain_id: u32,
) -> Result<SignerView, Seq<char>> {
    let path = account_path(template, idx);
    match path_fault(path) {
        Some(fault) => Err(fault_text(fault)),
        None => signer_of(mnemonic_key(phrase, path), chain_id),
    }
}

/// The text of the error for a key that has not 32 bytes, or an address that
/// has not 20.
pub open spec fn malformed_key_text() -> Seq<char> {
    "key material of the wrong length"@
}

/// The signer that a derivation's outcome makes for chain `chain_id`: a key
/// of 32 bytes with an address of 20 makes one, and nothing else does.
pub open spec fn signer_of(
    outcome: Result<(Seq<u8>, Seq<u8>), Seq<char>>,
    chain_id: u32,
) -> Result<SignerView, Seq<char>> {
    match outcome {
        Ok(pair) => if pair.0.len() == 32 && pair.1.len() == 20 {
            Ok(SignerView { key: pair.0, address: pair.1, chain_id })
        } else {
            Err(malformed_key_text())
        },
        Err(e) => Err(e),
    }
}

/// An outcome of `build_signer` with its bytes and characters as sequences.
pub open spec fn signer_outcome(r: Result<Signer, String>) -> Result<SignerView, Seq<char>> {
    match r {
        Ok(s) => Ok(s@),
        Err(e) => Err(e@),
    }
}

impl Signer {
    /// The invariant of a signer: a key of 32 bytes, an address of 20.
    pub open spec fn wf(&self) -> bool {
        self@.key.len() == 32 && self@.address.len() == 20
    }

    /// The signer that a derivation's outcome makes for chain `chain_id`: a
    /// key of 32 bytes with an address of 20 makes one, and nothing else
    /// does.
    pub fn from_derivation(outcome: Result<(Vec<u8>, Vec<u8>), String>, chain_id: u32) -> (r:
        Result<Signer, String>)
        ensures
            signer_outcome(r) == signer_of(key_material(outcome), chain_id),
            r matches Ok(s) ==> s.wf(),
    {
        match outcome {
            Ok(pair) => {
                if pair.0.len() == 32 && pair.1.len() == 20 {
                    Ok(Signer { key: pair.0, address: pair.1, chain_id })
                } else {
                    Err(String::from_str("key material of the wrong length"))
                }
            },
            Err(e) => Err(e),
        }
    }

    /// The 32 bytes of the private key.
    pub fn key(&self) -> (key: &Vec<u8>)
        ensures
            key@ == self@.key,
    {
        &self.key
    }

    /// The 20 bytes of the address.
    pub fn address(&self) -> (address: &Vec<u8>)
        ensures
            address@ == self@.address,
    {
        &self.address
    }

    /// The chain that signatures are bound to.
    pub fn chain_id(&self) -> (chain_id: u32)
        ensures
            chain_id == self@.chain_id,
    {
        self.chain_id
    }
}

impl Clone for Signer {
    fn clone(&self) -> (copy: Self)
        ensures
            copy@ == self@,
    {
        let key = self.key.clone();
        let address = self.address.clone();
        assert(key@ =~= self.key@);
        assert(address@ =~= self.address@);
        Signer { key, address, chain_id: self.chain_id }
    }
}

/// A signing identity.
#[derive(Debug)]
pub struct Wallet {
    mnemonic: String,
    derivation_path: String,
    idx: u32,
    signer: Signer,
}

/// What a `Wallet` holds.
pub struct WalletView {
    pub mnemonic: Seq<char>,
    pub derivation_path: Seq<char>,
    pub idx: u32,
    pub signer: SignerView,
}

impl View for Wallet {
    type V = WalletView;

    closed spec fn view(&self) -> WalletView {
        WalletView {
            mnemonic: self.mnemonic@,
            derivation_path: self.derivation_path@,
            idx: self.idx,
            signer: self.signer@,
        }
    }
}

/// Whether `w` holds the signer that its phrase, template and index give for
/// the chain it is bound to.
pub open spec fn holds_derived_signer(w: WalletView) -> bool {
    &&& derived_signer(w.mnemonic, w.derivation_path, w.idx, w.signer.chain_id) == Ok::<
        SignerView,
        Seq<char>,
    >(w.signer)
    &&& w.signer.key.len() == 32
    &&& w.signer.address.len() == 20
}

/// The seed phrase of the wallet that is used where none is configured.
pub open spec fn default_mnemonic() -> Seq<char> {
    "test test test test test test test test test test test junk"@
}

/// The derivation path template of the wallet that is used where none is
/// configured.
pub open spec fn default_derivation_path() -> Seq<char> {
    "m/44'/60'/0'/0"@
}

impl Wallet {
    /// The invariant of a wallet: its signer is the one derived from its
    /// phrase, template and index.
    pub open spec fn wf(&self) -> bool {
        holds_derived_signer(self@)
    }

    /// Derives the signer of account `idx` under the template
    /// `derivation_path` from the seed phrase `mnemonic`, for chain
    /// `chain_id`. The path of the account is the template, `/` and the
    /// index.
    pub fn build_signer(mnemonic: &str, derivation_path: &str, idx: u32, chain_id: u32) -> (r:
        Result<Signer, String>)
        ensures
            signer_outcome(r) == derived_signer(mnemonic@, derivation_path@, idx, chain_id),
            r matches Ok(s) ==> s.wf(),
    {
        let path = make_account_path(derivation_path, idx);
        match check_path(path.as_str()) {
            Some(fault) => Err(fault.text()),
            None => {
                let outcome = derive_key(mnemonic, path.as_str());
                Signer::from_derivation(outcome, chain_id)
            },
        }
    }

    /// The wallet of account `idx` under the template `derivation_path`,
    /// with its signer derived for chain `chain_id`.
    pub fn new(mnemonic: String, derivation_path: String, idx: u32, chain_id: u32) -> (r: Result<
        Wallet,
        Error,
    >)
        ensures
            match r {
                Ok(w) => {
                    &&& w.wf()
                    &&& w@.mnemonic == mnemonic@
                    &&& w@.derivation_path == derivation_path@
                    &&& w@.idx == idx
                    &&& derived_signer(mnemonic@, derivation_path@, idx, chain_id) == Ok::<
                        SignerView,
                        Seq<char>,
                    >(w@.signer)
                },
                Err(e) => {
                    &&& e matches Error::Derivation(text)
                    &&& derived_signer(mnemonic@, derivation_path@, idx, chain_id) == Err::<
                        SignerView,
                        Seq<char>,
                    >(text@)
                },
            },
    {
        match Wallet::build_signer(mnemonic.as_str(), derivation_path.as_str(), idx, chain_id) {
            Ok(signer) => Ok(Wallet { mnemonic, derivation_path, idx, signer }),
            Err(text) => Err(Error::Derivation(text)),
        }
    }

    /// The wallet that is used where none is configured: account 0 of a
    /// well-known test phrase, with its signer derived for chain 1.
    pub fn try_default() -> (r: Result<Wallet, Error>)
        ensures
            match r {
                Ok(w) => {
                    &&& w.wf()
                    &&& w@.mnemonic == default_mnemonic()
                    &&& w@.derivation_path == default_derivation_path()
                    &&& w@.idx == 0
                    &&& w@.signer.chain_id == 1
                },
                Err(e) => {
                    &&& e matches Error::Derivation(text)
                    &&& derived_signer(default_mnemonic(), default_derivation_path(), 0, 1)
                        == Err::<SignerView, Seq<char>>(text@)
                },
            },
    {
        Wallet::new(
            String::from_str("test test test test test test test test test test test junk"),
            String::from_str("m/44'/60'/0'/0"),
            0,
            1,
        )
    }

    /// The wallet stored as the three fields, with its signer derived for
    /// chain `chain_id`. A field that is absent is named, the first of
    /// them in the order mnemonic, derivation path, index.
    pub fn from_fields(
        mnemonic: Option<String>,
        derivation_path: Option<String>,
        idx: Option<u32>,
        chain_id: u32,
    ) -> (r: Result<Wallet, Error>)
        ensures
            mnemonic is None ==> r == Err::<Wallet, Error>(
                Error::MissingField(WalletField::Mnemonic),
            ),
            mnemonic is Some && derivation_path is None ==> r == Err::<Wallet, Error>(
                Error::MissingField(WalletField::DerivationPath),
            ),
            mnemonic is Some && derivation_path is Some && idx is None ==> r == Err::<
                Wallet,
                Error,
            >(Error::MissingField(WalletField::Idx)),
            mnemonic is Some && derivation_path is Some && idx is Some ==> match r {
                Ok(w) => {
                    &&& w.wf()
                    &&& w@.mnemonic == mnemonic->0@
                    &&& w@.derivation_path == derivation_path->0@
                    &&& w@.idx == idx->0
                    &&& derived_signer(mnemonic->0@, derivation_path->0@, idx->0, chain_id) == Ok::<
                        SignerView,
                        Seq<char>,
                    >(w@.signer)
                },
                Err(e) => {
                    &&& e matches Error::Derivation(text)
                    &&& derived_signer(mnemonic->0@, derivation_path->0@, idx->0, chain_id)
                        == Err::<SignerView, Seq<char>>(text@)
                },
            },
    {
        let mnemonic = match mnemonic {
            Some(m) => m,
            None => {
                return Err(Error::MissingField(WalletField::Mnemonic));
            },
        };
        let derivation_path = match derivation_path {
            Some(p) => p,
            None => {
                return Err(Error::MissingField(WalletField::DerivationPath));
            },
        };
        let idx = match idx {
            Some(i) => i,
            None => {
                return Err(Error::MissingField(WalletField::Idx));
            },
        };
        Wallet::new(mnemonic, derivation_path, idx, chain_id)
    }

    /// The seed phrase.
    pub fn mnemonic(&self) -> (mnemonic: &String)
        ensures
            mnemonic@ == self@.mnemonic,
    {
        &self.mnemonic
    }

    /// The template of the derivation path.
    pub fn derivation_path(&self) -> (path: &String)
        ensures
            path@ == self@.derivation_path,
    {
        &self.derivation_path
    }

    /// The index of the account.
    pub fn idx(&self) -> (idx: u32)
        ensures
            idx == self@.idx,
    {
        self.idx
    }

    /// The signer.
    pub fn signer(&self) -> (signer: &Signer)
        ensures
            signer@ == self@.signer,
    {
        &self.signer
    }

    /// The address of the wallet, in hexadecimal with its checksum: the
    /// address in plain hexadecimal but for the case of its letters.
    pub fn checksummed_address(&self) -> (text: String)
        requires
            self.wf(),
        ensures
            text@ == checksum_text(self@.signer.address),
            lower_text(text@) == plain_address_text(self@.signer.address),
    {
        to_checksum(&self.signer.address)
    }

    /// Derives the signer again for chain `chain_id`, from the same phrase,
    /// template and index. The key and the address are what they were.
    pub(crate) fn update_chain_id(&mut self, chain_id: u32)
        requires
            old(self).wf(),
        ensures
            final(self).wf(),
            final(self)@ == rebound(old(self)@, chain_id),
            derived_signer(
                old(self)@.mnemonic,
                old(self)@.derivation_path,
                old(self)@.idx,
                chain_id,
            ) == Ok::<SignerView, Seq<char>>(final(self)@.signer),
    {
        let derived = Wallet::build_signer(
            self.mnemonic.as_str(),
            self.derivation_path.as_str(),
            self.idx,
            chain_id,
        );
        // The phrase and the path gave a key before, so they give it again.
        assert(derived is Ok);
        if let Ok(signer) = derived {
            self.signer = signer;
        }
    }
}

/// Addresses that are written alike in plain hexadecimal are the same
/// address.
pub proof fn lemma_plain_address_injective(a: Seq<u8>, b: Seq<u8>)
    requires
        plain_address_text(a) == plain_address_text(b),
    ensures
        a == b,
{
    assert(plain_address_text(a).subrange(2, plain_address_text(a).len() as int) =~= bytes_hex_text(
        a,
    ));
    assert(plain_address_text(b).subrange(2, plain_address_text(b).len() as int) =~= bytes_hex_text(
        b,
    ));
    lemma_bytes_hex_injective(a, b);
}

/// `w` with its signer bound to chain `chain_id`.
pub open spec fn rebound(w: WalletView, chain_id: u32) -> WalletView {
    WalletView {
        signer: SignerView { chain_id, ..w.signer },
        ..w
    }
}

impl Clone for Wallet {
    fn clone(&self) -> (copy: Self)
        ensures
            copy@ == self@,
    {
        Wallet {
            mnemonic: self.mnemonic.clone(),
            derivation_path: self.derivation_path.clone(),
            idx: self.idx,
            signer: self.signer.clone(),
        }
    }
}

} // verus!
