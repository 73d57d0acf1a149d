//! Exchange accounts named in the configuration, and what it takes to set a
//! client up for each of them.
use vstd::prelude::*;

verus! {

/// Credentials and naming of one exchange account. `S` holds a secret (the
/// application keeps secrets in a type that wipes them from memory); the
/// secrets are only handed on, never read.
pub struct ExchangeConfig<S> {
    /// Name of the exchange, as the exchange client library spells it.
    pub exch_name: String,
    /// Optional tag telling several accounts on one exchange apart.
    pub tag: Option<String>,
    pub api_pubkey: String,
    pub api_secret: S,
    /// Only needed (and then required) by exchanges that ask for one.
    pub passphrase: Option<S>,
}

/// What a client of the exchange is set up with.
pub struct ExchangeSetup<S> {
    /// Name under which the account's balance is reported.
    pub key: String,
    pub exch_name: String,
    pub api_pubkey: String,
    pub api_secret: S,
    /// The passphrase, handed over only where the exchange requires one.
    pub passphrase: Option<S>,
}

/// Why an account could not be set up.
#[derive(Debug, PartialEq, Eq)]
pub enum SetupError {
    /// The exchange requires a passphrase and the configuration has none.
    MissingPassphrase { exch_name: String },
}

/// The account key: `name_tag` when tagged, else the exchange name alone.
pub open spec fn spec_account_key(exch_name: Seq<char>, tag: Option<Seq<char>>) -> Seq<char> {
    match tag {
        Some(t) => exch_name + seq!['_'] + t,
        None => exch_name,
    }
}

pub open spec fn tag_view(tag: Option<String>) -> Option<Seq<char>> {
    match tag {
        Some(t) => Some(t@),
        None => None,
    }
}

/// Account key for an exchange name and optional tag.
pub fn account_key(exch_name: &String, tag: &Option<String>) -> (key: String)
    ensures
        key@ == spec_account_key(exch_name@, tag_view(*tag)),
{
    match tag {
        Some(t) => {
            let mut key = exch_name.clone();
            key.append("_");
            key.append(t.as_str());
            proof {
                reveal_strlit("_");
            }
            key
        },
        None => exch_name.clone(),
    }
}

/// Two accounts on one exchange with different tags are reported under
/// different keys, and an untagged account under the exchange name itself.
pub proof fn lemma_tags_distinguish_keys(exch_name: Seq<char>, t1: Seq<char>, t2: Seq<char>)
    ensures
        t1 != t2 ==> spec_account_key(exch_name, Some(t1)) != spec_account_key(exch_name, Some(t2)),
        spec_account_key(exch_name, None) == exch_name,
{
    if t1 != t2 {
        let k1 = spec_account_key(exch_name, Some(t1));
        let k2 = spec_account_key(exch_name, Some(t2));
        let p = exch_name.len() + 1;
        if k1 == k2 {
            assert(t1 =~= k1.subrange(p as int, k1.len() as int));
            assert(t2 =~= k2.subrange(p as int, k2.len() as int));
        }
    }
}

impl<S> ExchangeConfig<S> {
    /// Name under which this account's balance is reported.
    pub fn key(&self) -> (key: String)
        ensures
            key@ == spec_account_key(self.exch_name@, tag_view(self.tag)),
    {
        account_key(&self.exch_name, &self.tag)
    }

    /// Everything a client of this account is set up with.
    /// `requires_passphrase` tells whether the exchange asks for a passphrase
    /// (KuCoin does); there the configuration must hold one.
    pub fn into_setup(self, requires_passphrase: bool) -> (r: Result<ExchangeSetup<S>, SetupError>)
        ensures
            r is Err <==> requires_passphrase && self.passphrase is None,
            r matches Err(SetupError::MissingPassphrase { exch_name }) ==> exch_name@
                == self.exch_name@,
            r matches Ok(s) ==> {
                &&& s.key@ == spec_account_key(self.exch_name@, tag_view(self.tag))
                &&& s.exch_name@ == self.exch_name@
                &&& s.api_pubkey@ == self.api_pubkey@
                &&& s.api_secret == self.api_secret
                &&& s.passphrase == (if requires_passphrase {
                    self.passphrase
                } else {
                    None
                })
            },
    {
        let key = account_key(&self.exch_name, &self.tag);
        let passphrase = if requires_passphrase {
            match self.passphrase {
                Some(p) => Some(p),
                None => {
                    return Err(SetupError::MissingPassphrase { exch_name: self.exch_name });
                },
            }
        } else {
            None
        };
        Ok(
            ExchangeSetup {
                key,
                exch_name: self.exch_name,
                api_pubkey: self.api_pubkey,
                api_secret: self.api_secret,
                passphrase,
            },
        )
    }
}

} // verus!
