//! Planning logic of the network-asset generation tooling: version
//! parsing and the layout of the generated account set.
//!
//! Key generation, chainspec templating and every file write are the
//! work of external collaborators; the library pins down what is to
//! be generated — how many accounts, with which balances, which key
//! algorithm and under which directory names.

use vstd::prelude::*;

verus! {

/// A decimal digit.
pub open spec fn spec_is_digit(c: char) -> bool {
    '0' <= c && c <= '9'
}

/// The numeric value of a digit character.
pub open spec fn spec_digit_val(c: char) -> int {
    c as int - '0' as int
}

/// The value of a digit string, most significant first.
pub open spec fn spec_digits_val(s: Seq<char>) -> int
    decreases s.len(),
{
    if s.len() == 0 {
        0
    } else {
        spec_digits_val(s.drop_last()) * 10 + spec_digit_val(s.last())
    }
}

/// The digit part of an unsigned decimal literal: the text past an
/// optional leading `+`.
pub open spec fn spec_u32_digits(s: Seq<char>) -> Seq<char> {
    if s.len() > 0 && s[0] == '+' {
        s.drop_first()
    } else {
        s
    }
}

/// Every character is a decimal digit.
pub open spec fn spec_all_digits(s: Seq<char>) -> bool {
    forall|i: int| 0 <= i < s.len() ==> spec_is_digit(#[trigger] s[i])
}

/// The number an unsigned decimal literal denotes: an optional
/// leading `+`, then at least one digit, valid when the value fits
/// in 32 bits.  (This is the grammar `u32` parsing accepts.)
pub open spec fn spec_parse_u32(s: Seq<char>) -> Option<u32> {
    let digits = spec_u32_digits(s);
    if digits.len() == 0 || !spec_all_digits(digits) {
        None
    } else if spec_digits_val(digits) > u32::MAX {
        None
    } else {
        Some(spec_digits_val(digits) as u32)
    }
}

/// Digit values are non-negative, so a digit string's value is too.
proof fn lemma_digits_val_nonneg(s: Seq<char>)
    requires
        spec_all_digits(s),
    ensures
        spec_digits_val(s) >= 0,
    decreases s.len(),
{
    if s.len() > 0 {
        assert forall|i: int|
            0 <= i < s.drop_last().len() implies spec_is_digit(#[trigger] s.drop_last()[i]) by {
            assert(s.drop_last()[i] == s[i]);
        }
        lemma_digits_val_nonneg(s.drop_last());
    }
}

/// A digit string is worth at least any of its prefixes.
proof fn lemma_digits_val_prefix_le(s: Seq<char>, m: int)
    requires
        spec_all_digits(s),
        0 <= m <= s.len(),
    ensures
        spec_digits_val(s.take(m)) <= spec_digits_val(s),
    decreases s.len() - m,
{
    if m == s.len() {
        assert(s.take(m) =~= s);
    } else {
        lemma_digits_val_prefix_le(s, m + 1);
        let p = s.take(m + 1);
        assert forall|i: int| 0 <= i < p.len() implies spec_is_digit(#[trigger] p[i]) by {
            assert(p[i] == s[i]);
        }
        assert(p.drop_last() =~= s.take(m));
        assert(spec_all_digits(s.take(m))) by {
            assert forall|i: int|
                0 <= i < s.take(m).len() implies spec_is_digit(#[trigger] s.take(m)[i]) by {
                assert(s.take(m)[i] == s[i]);
            }
        }
        lemma_digits_val_nonneg(s.take(m));
        assert(spec_digits_val(p) == spec_digits_val(s.take(m)) * 10 + spec_digit_val(p.last()));
        assert(spec_digit_val(p.last()) >= 0);
        assert(spec_digits_val(s.take(m)) * 10 >= spec_digits_val(s.take(m)))
            by (nonlinear_arith)
            requires
                spec_digits_val(s.take(m)) >= 0,
        ;
    }
}

/// Parses the characters `from..to` of `s` as an unsigned decimal
/// number, exactly per [`spec_parse_u32`].
fn parse_u32_range(s: &str, from: usize, to: usize) -> (r: Option<u32>)
    requires
        from <= to <= s@.len(),
    ensures
        r == spec_parse_u32(s@.subrange(from as int, to as int)),
{
    let ghost whole = s@.subrange(from as int, to as int);
    let mut i: usize = from;
    if i < to && s.get_char(i) == '+' {
        i = i + 1;
    }
    let ghost digits = s@.subrange(i as int, to as int);
    proof {
        if whole.len() > 0 && whole[0] == '+' {
            assert(whole.drop_first() =~= digits);
        } else {
            assert(whole =~= digits);
        }
        assert(spec_u32_digits(whole) == digits);
    }
    if i == to {
        return None;
    }
    let ghost start = i as int;
    assert(digits == s@.subrange(start, to as int));
    let mut acc: u32 = 0;
    #[verifier::loop_isolation(false)]
    while i < to
        invariant
            start <= i <= to,
            forall|j: int| 0 <= j < i - start ==> spec_is_digit(#[trigger] digits[j]),
            acc == spec_digits_val(digits.take(i - start)),
        decreases to - i,
    {
        let c = s.get_char(i);
        let code: u32 = c as u32;
        proof {
            assert(digits[i - start] == s@[i as int]);
        }
        if code < 48 || code > 57 {
            proof {
                assert(0 <= i - start < digits.len());
                assert(!spec_is_digit(digits[i - start]));
                assert(!spec_all_digits(digits));
                assert(spec_parse_u32(s@.subrange(from as int, to as int)) is None);
            }
            return None;
        }
        let d: u32 = code - 48;
        assert(spec_is_digit(digits[i - start]));
        assert(d == spec_digit_val(digits[i - start]));
        if acc > (u32::MAX - d) / 10 {
            // the value no longer fits: the full digit string is worth
            // at least this prefix, which already exceeds the range
            proof {
                let upto = digits.take(i - start + 1);
                assert(upto.drop_last() =~= digits.take(i - start));
                assert(upto.last() == digits[i - start]);
                assert(spec_digits_val(upto) == acc * 10 + d);
                assert(acc * 10 + d > u32::MAX) by (nonlinear_arith)
                    requires
                        acc > (u32::MAX - d) / 10,
                        0 <= d <= 9,
                        acc <= u32::MAX,
                ;
                if spec_all_digits(digits) {
                    lemma_digits_val_prefix_le(digits, i - start + 1);
                    assert(spec_digits_val(digits) > u32::MAX);
                } else {
                    // some later character is not a digit: the spec
                    // rejects the string outright
                }
                assert(spec_parse_u32(s@.subrange(from as int, to as int)) is None);
            }
            return None;
        }
        proof {
            assert(acc * 10 + d <= u32::MAX) by (nonlinear_arith)
                requires
                    acc <= (u32::MAX - d) / 10,
                    0 <= d <= 9,
            ;
            let upto = digits.take(i - start + 1);
            assert(upto.drop_last() =~= digits.take(i - start));
            assert(upto.last() == digits[i - start]);
        }
        acc = acc * 10 + d;
        i = i + 1;
    }
    proof {
        assert(digits.take(to - start) =~= digits);
        assert(spec_all_digits(digits));
        lemma_digits_val_nonneg(digits);
    }
    Some(acc)
}

/// The first index at or past `from` where `s` holds a `.`, or the
/// length of `s` when there is none.
pub open spec fn spec_first_dot_at(s: Seq<char>, from: int) -> int
    recommends
        0 <= from <= s.len(),
    decreases s.len() - from when 0 <= from <= s.len()
{
    if from >= s.len() {
        s.len() as int
    } else if s[from] == '.' {
        from
    } else {
        spec_first_dot_at(s, from + 1)
    }
}

/// Finds the first `.` at or past `from`.
fn find_dot(s: &str, from: usize) -> (r: usize)
    requires
        from <= s@.len(),
    ensures
        r == spec_first_dot_at(s@, from as int),
        from <= r <= s@.len(),
        r < s@.len() ==> s@[r as int] == '.',
{
    let n = s.unicode_len();
    let mut i: usize = from;
    while i < n
        invariant
            from <= i <= n,
            n == s@.len(),
            spec_first_dot_at(s@, from as int) == spec_first_dot_at(s@, i as int),
        decreases n - i,
    {
        if s.get_char(i) == '.' {
            return i;
        }
        i = i + 1;
    }
    i
}

#[derive(Debug)]
pub enum VersionError {
    /// No `.` after the major number.
    MissingMinor,
    /// No `.` after the minor number.
    MissingPatch,
    /// A component is not a valid unsigned decimal number.
    InvalidNumber,
}

/// A protocol version of a staged network.
#[derive(Debug, Clone, Copy, PartialEq, Eq, Structural)]
pub struct Version {
    pub major: u32,
    pub minor: u32,
    pub patch: u32,
}

/// What parsing a version string yields: the text up to the first
/// `.` is the major number, then the minor, then the patch up to a
/// third `.` or the end; anything after a third `.` is ignored.
pub open spec fn spec_parse_version(s: Seq<char>) -> Result<Version, VersionError> {
    let i = spec_first_dot_at(s, 0);
    if spec_parse_u32(s.take(i)) is None {
        Err(VersionError::InvalidNumber)
    } else if i == s.len() {
        Err(VersionError::MissingMinor)
    } else {
        let j = spec_first_dot_at(s, i + 1);
        if spec_parse_u32(s.subrange(i + 1, j)) is None {
            Err(VersionError::InvalidNumber)
        } else if j == s.len() {
            Err(VersionError::MissingPatch)
        } else {
            let k = spec_first_dot_at(s, j + 1);
            if spec_parse_u32(s.subrange(j + 1, k)) is None {
                Err(VersionError::InvalidNumber)
            } else {
                Ok(
                    Version {
                        major: spec_parse_u32(s.take(i))->Some_0,
                        minor: spec_parse_u32(s.subrange(i + 1, j))->Some_0,
                        patch: spec_parse_u32(s.subrange(j + 1, k))->Some_0,
                    },
                )
            }
        }
    }
}

impl Version {
    /// Parse a `major.minor.patch` version string, exactly per
    /// [`spec_parse_version`].
    pub fn parse(s: &str) -> (r: Result<Version, VersionError>)
        ensures
            r == spec_parse_version(s@),
    {
        let n = s.unicode_len();
        let i = find_dot(s, 0);
        let major = match parse_u32_range(s, 0, i) {
            Some(v) => v,
            None => {
                return Err(VersionError::InvalidNumber);
            },
        };
        proof {
            assert(s@.take(i as int) =~= s@.subrange(0, i as int));
        }
        if i == n {
            return Err(VersionError::MissingMinor);
        }
        let j = find_dot(s, i + 1);
        let minor = match parse_u32_range(s, i + 1, j) {
            Some(v) => v,
            None => {
                return Err(VersionError::InvalidNumber);
            },
        };
        if j == n {
            return Err(VersionError::MissingPatch);
        }
        let k = find_dot(s, j + 1);
        let patch = match parse_u32_range(s, j + 1, k) {
            Some(v) => v,
            None => {
                return Err(VersionError::InvalidNumber);
            },
        };
        Ok(Version { major, minor, patch })
    }
}

/// The digit character of a value below ten.
pub open spec fn spec_digit_char(d: int) -> char {
    if d == 0 {
        '0'
    } else if d == 1 {
        '1'
    } else if d == 2 {
        '2'
    } else if d == 3 {
        '3'
    } else if d == 4 {
        '4'
    } else if d == 5 {
        '5'
    } else if d == 6 {
        '6'
    } else if d == 7 {
        '7'
    } else if d == 8 {
        '8'
    } else {
        '9'
    }
}

/// The decimal rendering of `v`, most significant digit first, no
/// sign and no leading zero.
pub open spec fn spec_dec_str(v: int) -> Seq<char>
    recommends
        v >= 0,
    decreases v when v >= 0
{
    if v < 10 {
        seq![spec_digit_char(v)]
    } else {
        spec_dec_str(v / 10).push(spec_digit_char(v % 10))
    }
}

/// One decimal digit as text.
fn digit_str(d: u32) -> (r: &'static str)
    requires
        d < 10,
    ensures
        r@ == seq![spec_digit_char(d as int)],
{
    proof {
        reveal_strlit("0");
        reveal_strlit("1");
        reveal_strlit("2");
        reveal_strlit("3");
        reveal_strlit("4");
        reveal_strlit("5");
        reveal_strlit("6");
        reveal_strlit("7");
        reveal_strlit("8");
        reveal_strlit("9");
    }
    let r = if d == 0 {
        "0"
    } else if d == 1 {
        "1"
    } else if d == 2 {
        "2"
    } else if d == 3 {
        "3"
    } else if d == 4 {
        "4"
    } else if d == 5 {
        "5"
    } else if d == 6 {
        "6"
    } else if d == 7 {
        "7"
    } else if d == 8 {
        "8"
    } else {
        "9"
    };
    proof {
        assert(r@ =~= seq![spec_digit_char(d as int)]);
    }
    r
}

/// Renders `v` in decimal.
pub fn u32_dec_string(v: u32) -> (r: String)
    ensures
        r@ == spec_dec_str(v as int),
    decreases v,
{
    if v < 10 {
        digit_str(v).to_owned()
    } else {
        let mut s = u32_dec_string(v / 10);
        s.append(digit_str(v % 10));
        proof {
            assert(spec_dec_str((v / 10) as int).push(spec_digit_char((v % 10) as int))
                =~= spec_dec_str((v / 10) as int) + seq![spec_digit_char((v % 10) as int)]);
        }
        s
    }
}

impl Version {
    /// The `major.minor.patch` rendering (the version's display form).
    pub fn to_display_string(&self) -> (r: String)
        ensures
            r@ == spec_dec_str(self.major as int) + "."@ + spec_dec_str(self.minor as int) + "."@
                + spec_dec_str(self.patch as int),
    {
        let mut s = u32_dec_string(self.major);
        s.append(".");
        let minor = u32_dec_string(self.minor);
        s.append(minor.as_str());
        s.append(".");
        let patch = u32_dec_string(self.patch);
        s.append(patch.as_str());
        s
    }

    /// The `major_minor_patch` rendering used for network asset
    /// directory names.
    pub fn to_underscored_string(&self) -> (r: String)
        ensures
            r@ == spec_dec_str(self.major as int) + "_"@ + spec_dec_str(self.minor as int) + "_"@
                + spec_dec_str(self.patch as int),
    {
        let mut s = u32_dec_string(self.major);
        s.append("_");
        let minor = u32_dec_string(self.minor);
        s.append(minor.as_str());
        s.append("_");
        let patch = u32_dec_string(self.patch);
        s.append(patch.as_str());
        s
    }
}

/// Account-set parameters of a generated network.
#[derive(Debug)]
pub enum Params {
    /// Generate a chainspec from scratch, specifying all parameters.
    Generate {
        validator_count: u32,
        validator_balance: u64,
        validator_bonded_amount: u64,
        delegator_count: u32,
        delegator_balance: u64,
        delegated_amount: u64,
    },
    /// Use the default values.
    Default,
    /// Use the default values, but override the number of validators.
    Validators { count: u32 },
}

/// The full parameter set that a bare validator count denotes.
pub open spec fn spec_params_for_validator_count(count: u32) -> Params {
    Params::Generate {
        validator_count: count,
        validator_balance: 100_000_000_000_000_000,
        validator_bonded_amount: 100_000_000_000_000_000,
        delegator_count: 10,
        delegator_balance: 1_000_000_000_000,
        delegated_amount: 500_000_000_000,
    }
}

/// The explicit parameter set that `p` denotes.
pub open spec fn spec_resolve_params(p: Params) -> Params {
    match p {
        Params::Generate { .. } => p,
        Params::Default => spec_params_for_validator_count(10),
        Params::Validators { count } => spec_params_for_validator_count(count),
    }
}

impl Params {
    /// The full parameter set for `validator_count` validators with
    /// the stock balances and ten delegators.
    pub fn validator_count(validator_count: u32) -> (r: Params)
        ensures
            r == spec_params_for_validator_count(validator_count),
    {
        Params::Generate {
            validator_count,
            validator_balance: 100_000_000_000 * 1_000_000,
            validator_bonded_amount: 100_000_000_000 * 1_000_000,
            delegator_count: 10,
            delegator_balance: 1_000_000 * 1_000_000,
            delegated_amount: 500_000 * 1_000_000,
        }
    }

    /// Resolve to the explicit form.
    pub fn resolve(self) -> (r: Params)
        ensures
            r == spec_resolve_params(self),
            r is Generate,
    {
        match self {
            Params::Generate {
                validator_count,
                validator_balance,
                validator_bonded_amount,
                delegator_count,
                delegator_balance,
                delegated_amount,
            } => Params::Generate {
                validator_count,
                validator_balance,
                validator_bonded_amount,
                delegator_count,
                delegator_balance,
                delegated_amount,
            },
            Params::Default => Params::validator_count(10),
            Params::Validators { count } => Params::validator_count(count),
        }
    }
}

impl Default for Params {
    /// Ten validators, ten delegators, stock balances.
    fn default() -> (r: Params)
        ensures
            r == spec_params_for_validator_count(10),
    {
        Params::validator_count(10)
    }
}

/// The signature algorithm a generated key pair uses.
#[derive(Debug, PartialEq, Eq, Structural, Clone, Copy)]
pub enum KeyAlgorithm {
    Ed25519,
    Secp256k1,
}

/// The algorithm assigned to the account with index `id`: algorithms
/// alternate, even ids taking Ed25519.
pub open spec fn spec_algorithm_for(id: u32) -> KeyAlgorithm {
    if id % 2 == 0 {
        KeyAlgorithm::Ed25519
    } else {
        KeyAlgorithm::Secp256k1
    }
}

/// The conventional name of a key algorithm.
pub fn algorithm_name(alg: &KeyAlgorithm) -> (r: String)
    ensures
        alg is Ed25519 ==> r@ == "Ed25519"@,
        alg is Secp256k1 ==> r@ == "secp256k1"@,
{
    match alg {
        KeyAlgorithm::Ed25519 => String::from_str("Ed25519"),
        KeyAlgorithm::Secp256k1 => String::from_str("secp256k1"),
    }
}

/// One validator account to generate.
#[derive(Debug)]
pub struct ValidatorSpec {
    pub id: u32,
    pub algorithm: KeyAlgorithm,
    /// Name of the directory its key pair is written into.
    pub key_dir: String,
    pub balance: u64,
    pub bonded_amount: u64,
}

/// One delegator account to generate.
#[derive(Debug)]
pub struct DelegatorSpec {
    pub id: u32,
    pub algorithm: KeyAlgorithm,
    /// Name of the directory its key pair is written into.
    pub key_dir: String,
    /// Index of the validator this delegator delegates to.
    pub validator_index: u32,
    pub balance: u64,
    pub delegated_amount: u64,
}

/// The complete account set of a generated network.
#[derive(Debug)]
pub struct AccountsPlan {
    pub validators: Vec<ValidatorSpec>,
    pub delegators: Vec<DelegatorSpec>,
}

/// Lay out the accounts that `params` asks for: one validator per id
/// with alternating key algorithms and the configured balances, and
/// the delegators assigned to validators round-robin.
///
/// With delegators but no validators there is nobody to delegate to:
/// such parameter sets are rejected by the precondition.
pub fn accounts_plan(params: Params) -> (r: AccountsPlan)
    requires
        ({
            let p = spec_resolve_params(params);
            p->Generate_delegator_count > 0 ==> p->Generate_validator_count > 0
        }),
    ensures
        ({
            let p = spec_resolve_params(params);
            let vc = p->Generate_validator_count;
            let dc = p->Generate_delegator_count;
            &&& r.validators@.len() == vc
            &&& forall|i: int|
                0 <= i < vc ==> {
                    &&& (#[trigger] r.validators@[i]).id == i
                    &&& r.validators@[i].algorithm == spec_algorithm_for(i as u32)
                    &&& r.validators@[i].key_dir@ == "validator-"@ + spec_dec_str(i)
                    &&& r.validators@[i].balance == p->Generate_validator_balance
                    &&& r.validators@[i].bonded_amount == p->Generate_validator_bonded_amount
                }
            &&& r.delegators@.len() == dc
            &&& forall|d: int|
                0 <= d < dc ==> {
                    &&& (#[trigger] r.delegators@[d]).id == d
                    &&& r.delegators@[d].algorithm == spec_algorithm_for(d as u32)
                    &&& r.delegators@[d].key_dir@ == "delegator-"@ + spec_dec_str(d)
                    &&& r.delegators@[d].validator_index == d as u32 % vc
                    &&& r.delegators@[d].balance == p->Generate_delegator_balance
                    &&& r.delegators@[d].delegated_amount == p->Generate_delegated_amount
                }
        }),
{
    let resolved = params.resolve();
    match resolved {
        Params::Generate {
            validator_count,
            validator_balance,
            validator_bonded_amount,
            delegator_count,
            delegator_balance,
            delegated_amount,
        } => {
            let mut validators: Vec<ValidatorSpec> = Vec::new();
            let mut i: u32 = 0;
            while i < validator_count
                invariant
                    0 <= i <= validator_count,
                    validators@.len() == i,
                    forall|k: int|
                        0 <= k < i ==> {
                            &&& (#[trigger] validators@[k]).id == k
                            &&& validators@[k].algorithm == spec_algorithm_for(k as u32)
                            &&& validators@[k].key_dir@ == "validator-"@ + spec_dec_str(k)
                            &&& validators@[k].balance == validator_balance
                            &&& validators@[k].bonded_amount == validator_bonded_amount
                        },
                decreases validator_count - i,
            {
                let mut key_dir = String::from_str("validator-");
                let id_text = u32_dec_string(i);
                key_dir.append(id_text.as_str());
                let algorithm = if i % 2 == 0 {
                    KeyAlgorithm::Ed25519
                } else {
                    KeyAlgorithm::Secp256k1
                };
                validators.push(
                    ValidatorSpec {
                        id: i,
                        algorithm,
                        key_dir,
                        balance: validator_balance,
                        bonded_amount: validator_bonded_amount,
                    },
                );
                i = i + 1;
            }
            let mut delegators: Vec<DelegatorSpec> = Vec::new();
            let mut d: u32 = 0;
            while d < delegator_count
                invariant
                    0 <= d <= delegator_count,
                    delegator_count > 0 ==> validator_count > 0,
                    delegators@.len() == d,
                    forall|k: int|
                        0 <= k < d ==> {
                            &&& (#[trigger] delegators@[k]).id == k
                            &&& delegators@[k].algorithm == spec_algorithm_for(k as u32)
                            &&& delegators@[k].key_dir@ == "delegator-"@ + spec_dec_str(k)
                            &&& delegators@[k].validator_index == k as u32 % validator_count
                            &&& delegators@[k].balance == delegator_balance
                            &&& delegators@[k].delegated_amount == delegated_amount
                        },
                decreases delegator_count - d,
            {
                let mut key_dir = String::from_str("delegator-");
                let id_text = u32_dec_string(d);
                key_dir.append(id_text.as_str());
                let algorithm = if d % 2 == 0 {
                    KeyAlgorithm::Ed25519
                } else {
                    KeyAlgorithm::Secp256k1
                };
                delegators.push(
                    DelegatorSpec {
                        id: d,
                        algorithm,
                        key_dir,
                        validator_index: d % validator_count,
                        balance: delegator_balance,
                        delegated_amount,
                    },
                );
                d = d + 1;
            }
            AccountsPlan { validators, delegators }
        },
        _ => {
            // resolve() always yields the explicit form
            proof {
                assert(false);
            }
            AccountsPlan { validators: Vec::new(), delegators: Vec::new() }
        },
    }
}

/// The request to generate the on-disk assets of a network.
#[derive(Debug)]
pub struct GenerateNetworkAssets {
    /// Name of the network.
    pub network_name: String,
    /// Version of the staged network.
    pub version: Version,
    /// Path to the assets directory.
    pub assets_path: String,
    /// Path to the chainspec source directory.
    pub chainspec_src_path: String,
    /// Account-set parameters.
    pub source: Params,
    /// Overwrite existing files.
    pub overwrite: bool,
}

impl GenerateNetworkAssets {
    /// The directory the network's assets are generated into:
    /// `<assets_path>/<network_name>/<major_minor_patch>`.
    pub fn network_dir(&self) -> (r: String)
        ensures
            r@ == self.assets_path@ + "/"@ + self.network_name@ + "/"@ + spec_dec_str(
                self.version.major as int,
            ) + "_"@ + spec_dec_str(self.version.minor as int) + "_"@ + spec_dec_str(
                self.version.patch as int,
            ),
    {
        let mut r = self.assets_path.clone();
        r.append("/");
        r.append(self.network_name.as_str());
        r.append("/");
        let v = self.version.to_underscored_string();
        r.append(v.as_str());
        r
    }

    /// The directory of files shared between the network's nodes:
    /// `<network_dir>/shared`.
    pub fn network_shared_dir(&self) -> (r: String)
        ensures
            r@ == self.assets_path@ + "/"@ + self.network_name@ + "/"@ + spec_dec_str(
                self.version.major as int,
            ) + "_"@ + spec_dec_str(self.version.minor as int) + "_"@ + spec_dec_str(
                self.version.patch as int,
            ) + "/shared"@,
    {
        let mut r = self.network_dir();
        r.append("/shared");
        r
    }

    /// The configuration files that generation writes into the shared
    /// directory.
    pub fn expected_artifacts(&self) -> (r: crate::compile::BuildArtifacts)
        ensures
            r.path@ == self.assets_path@ + "/"@ + self.network_name@ + "/"@ + spec_dec_str(
                self.version.major as int,
            ) + "_"@ + spec_dec_str(self.version.minor as int) + "_"@ + spec_dec_str(
                self.version.patch as int,
            ) + "/shared"@,
            r.files@.len() == 3,
            r.files@[0]@ == "accounts.toml"@,
            r.files@[1]@ == "chainspec.toml"@,
            r.files@[2]@ == "config.toml"@,
    {
        let path = self.network_shared_dir();
        let mut files: Vec<String> = Vec::new();
        files.push(String::from_str("accounts.toml"));
        files.push(String::from_str("chainspec.toml"));
        files.push(String::from_str("config.toml"));
        crate::compile::BuildArtifacts { path, files }
    }
}

} // verus!
