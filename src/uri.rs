use crate::algorithm::{algorithm_from_name, algorithm_name, Algorithm};
use crate::codec::{
    digits_value,
    is_digit,
    base32_decode,
    base32_decoded,
    base32_of,
    parse_unsigned,
    parse_decimal,
    percent_decode,
    percent_decoded,
    percent_encode,
    percent_encoded,
};
use crate::error::{Error, ErrorView};
use crate::text::{decimal_digits, digit_str, find_char, has_char, str_eq};
use crate::totp::{new_spec, opt_text, result_view, TotpView, TOTP};
use vstd::prelude::*;

verus! {

/// Whether `s` is a text that `url::Url::parse` accepts.
pub uninterp spec fn url_parses(s: Seq<char>) -> bool;

/// The scheme of the URL that `s` spells.
pub uninterp spec fn url_scheme_of(s: Seq<char>) -> Seq<char>;

/// The host of the URL that `s` spells, as text.
pub uninterp spec fn url_host_of(s: Seq<char>) -> Option<Seq<char>>;

/// The path of the URL that `s` spells.
pub uninterp spec fn url_path_of(s: Seq<char>) -> Seq<char>;

/// The form-decoded key and value pairs of the query of the URL that `s` spells.
pub uninterp spec fn url_query_of(s: Seq<char>) -> Seq<(Seq<char>, Seq<char>)>;

/// The pieces of a parsed URL that an `otpauth` URI is read from.
pub struct UrlParts {
    pub scheme: String,
    pub host: Option<String>,
    pub path: String,
    pub query: Vec<(String, String)>,
}

/// Key and value pairs seen as character sequences.
pub open spec fn pairs_view(q: Seq<(String, String)>) -> Seq<(Seq<char>, Seq<char>)> {
    q.map_values(|p: (String, String)| (p.0@, p.1@))
}

/// Relies on `url::Url::parse` and on the URL's `scheme`, `host`, `path` and
/// `query_pairs`: each depends on the input text alone.
#[verifier::external_body]
fn parse_url(s: &str) -> (r: Result<UrlParts, url::ParseError>)
    ensures
        r is Ok == url_parses(s@),
        r matches Ok(p) ==> p.scheme@ == url_scheme_of(s@) && opt_text(p.host) == url_host_of(s@)
            && p.path@ == url_path_of(s@) && pairs_view(p.query@) == url_query_of(s@),
{
    let u = url::Url::parse(s)?;
    Ok(UrlParts {
        scheme: u.scheme().to_owned(),
        host: u.host().map(|h| h.to_string()),
        path: u.path().to_owned(),
        query: u.query_pairs().map(|(k, v)| (k.into_owned(), v.into_owned())).collect(),
    })
}

/// `s` without the run of `c` it starts with.
pub open spec fn trim_leading(s: Seq<char>, c: char) -> Seq<char>
    decreases s.len(),
{
    if s.len() > 0 && s[0] == c {
        trim_leading(s.drop_first(), c)
    } else {
        s
    }
}

/// The position of the first `c` in `s`, or the length of `s`.
pub open spec fn first_index(s: Seq<char>, c: char) -> int
    decreases s.len(),
{
    if s.len() == 0 || s[0] == c {
        0
    } else {
        1 + first_index(s.drop_first(), c)
    }
}

/// A label split at its first colon into the issuer and the account name
/// (colons that follow the first are dropped); without a colon, no issuer.
pub open spec fn label_split(label: Seq<char>) -> (Option<Seq<char>>, Seq<char>) {
    if has_char(label, ':') {
        let i = first_index(label, ':');
        (Some(label.take(i)), trim_leading(label.skip(i + 1), ':'))
    } else {
        (None, label)
    }
}

/// The settings read from a query so far.
pub struct QueryState {
    pub algorithm: Algorithm,
    pub digits: usize,
    pub step: u64,
    pub secret: Seq<u8>,
    pub issuer: Option<Seq<char>>,
}

/// Reads one query pair; unknown keys change nothing.
pub open spec fn apply_pair(st: QueryState, key: Seq<char>, value: Seq<char>) -> Result<
    QueryState,
    ErrorView,
> {
    if key == "algorithm"@ {
        match algorithm_from_name(value) {
            Some(a) => Ok(QueryState { algorithm: a, ..st }),
            None => Err(ErrorView::Algorithm(value)),
        }
    } else if key == "digits"@ {
        match parse_unsigned(value, usize::MAX as nat) {
            Some(n) => Ok(QueryState { digits: n as usize, ..st }),
            None => Err(ErrorView::Digits(value)),
        }
    } else if key == "period"@ {
        match parse_unsigned(value, u64::MAX as nat) {
            Some(n) => Ok(QueryState { step: n as u64, ..st }),
            None => Err(ErrorView::Step(value)),
        }
    } else if key == "secret"@ {
        match base32_decoded(value) {
            Some(b) => Ok(QueryState { secret: b, ..st }),
            None => Err(ErrorView::Secret(value)),
        }
    } else if key == "issuer"@ {
        if st.issuer matches Some(i) && i != value {
            Err(ErrorView::IssuerMismatch(st.issuer.unwrap(), value))
        } else {
            Ok(QueryState { issuer: Some(value), ..st })
        }
    } else {
        Ok(st)
    }
}

/// Reads the query pairs in order, stopping at the first error.
pub open spec fn apply_pairs(st: QueryState, q: Seq<(Seq<char>, Seq<char>)>) -> Result<
    QueryState,
    ErrorView,
>
    decreases q.len(),
{
    if q.len() == 0 {
        Ok(st)
    } else {
        match apply_pair(st, q[0].0, q[0].1) {
            Ok(next) => apply_pairs(next, q.drop_first()),
            Err(e) => Err(e),
        }
    }
}

/// What reading an `otpauth` URI from its scheme, host, path and query gives.
pub open spec fn parts_spec(
    scheme: Seq<char>,
    host: Option<Seq<char>>,
    path: Seq<char>,
    query: Seq<(Seq<char>, Seq<char>)>,
) -> Result<TotpView, ErrorView> {
    let (raw_issuer, raw_account) = label_split(trim_leading(path, '/'));
    if scheme != "otpauth"@ {
        Err(ErrorView::Scheme(scheme))
    } else if host != Some("totp"@) {
        Err(
            ErrorView::Host(
                match host {
                    Some(h) => h,
                    None => Seq::empty(),
                },
            ),
        )
    } else if raw_issuer matches Some(ri) && percent_decoded(ri) is None {
        Err(ErrorView::IssuerDecoding(raw_issuer.unwrap()))
    } else if percent_decoded(raw_account) is None {
        Err(ErrorView::AccountName(raw_account))
    } else {
        let label_issuer = match raw_issuer {
            Some(ri) => percent_decoded(ri),
            None => None,
        };
        let start = QueryState {
            algorithm: Algorithm::SHA1,
            digits: 6,
            step: 30,
            secret: Seq::empty(),
            issuer: label_issuer,
        };
        finish_query(apply_pairs(start, query), percent_decoded(raw_account).unwrap())
    }
}

/// The TOTP built from what the query gave: a secret must have been given;
/// the skew is 1.
pub open spec fn finish_query(res: Result<QueryState, ErrorView>, account_name: Seq<char>) -> Result<
    TotpView,
    ErrorView,
> {
    match res {
        Err(e) => Err(e),
        Ok(st) => if st.secret.len() == 0 {
            Err(ErrorView::Secret(Seq::empty()))
        } else {
            new_spec(
                TotpView {
                    algorithm: st.algorithm,
                    digits: st.digits,
                    skew: 1,
                    step: st.step,
                    secret: st.secret,
                    account_name,
                    issuer: st.issuer,
                },
            )
        },
    }
}

/// The decimal text of `n`, without leading zeros.
pub open spec fn decimal_text(n: nat) -> Seq<char>
    decreases n,
{
    if n < 10 {
        seq![decimal_digits()[n as int]]
    } else {
        decimal_text(n / 10).push(decimal_digits()[(n % 10) as int])
    }
}

/// The `otpauth` URI of a TOTP: the percent-encoded label, then the secret,
/// the digits and the algorithm; the issuer, when present, prefixes the label
/// and leads the query.
pub open spec fn url_text(t: TotpView) -> Seq<char> {
    let account = percent_encoded(t.account_name);
    let label = match t.issuer {
        Some(i) => percent_encoded(i) + ":"@ + account + "?issuer="@ + percent_encoded(i) + "&"@,
        None => account + "?"@,
    };
    "otpauth://totp/"@ + label + "secret="@ + base32_of(t.secret) + "&digits="@ + decimal_text(
        t.digits as nat,
    ) + "&algorithm="@ + algorithm_name(t.algorithm)
}

proof fn lemma_digit_char(k: int)
    requires
        0 <= k < 10,
    ensures
        is_digit(decimal_digits()[k]),
        decimal_digits()[k] != '+',
        (decimal_digits()[k] as u32) - ('0' as u32) == k,
{
    reveal_strlit("0123456789");
}

proof fn lemma_decimal_text_value(n: nat)
    ensures
        decimal_text(n).len() > 0,
        decimal_text(n)[0] != '+',
        forall|i: int| 0 <= i < decimal_text(n).len() ==> is_digit(#[trigger] decimal_text(n)[i]),
        digits_value(decimal_text(n)) == n,
    decreases n,
{
    if n < 10 {
        lemma_digit_char(n as int);
        assert(decimal_text(n).drop_last() =~= Seq::<char>::empty());
        assert(decimal_text(n).last() == decimal_digits()[n as int]);
        assert(digits_value(decimal_text(n).drop_last()) == 0);
    } else {
        lemma_decimal_text_value(n / 10);
        lemma_digit_char((n % 10) as int);
        assert(decimal_text(n).drop_last() =~= decimal_text(n / 10));
        assert(decimal_text(n).last() == decimal_digits()[(n % 10) as int]);
        vstd::arithmetic::div_mod::lemma_fundamental_div_mod(n as int, 10);
        assert(digits_value(decimal_text(n)) == digits_value(decimal_text(n / 10)) * 10 + n % 10);
    }
}

/// The digit count and the algorithm name that `get_url` writes into the
/// query are read back unchanged by the query reader of `from_url_parts`.
pub proof fn lemma_query_fields_read_back(digits: usize, alg: Algorithm)
    ensures
        parse_unsigned(decimal_text(digits as nat), usize::MAX as nat) == Some(digits as nat),
        algorithm_from_name(algorithm_name(alg)) == Some(alg),
{
    lemma_decimal_text_value(digits as nat);
    reveal_strlit("SHA1");
    reveal_strlit("SHA256");
    reveal_strlit("SHA512");
    assert("SHA1"@[3] != "SHA256"@[3]);
    assert("SHA1"@.len() != "SHA512"@.len());
    assert("SHA256"@[3] != "SHA512"@[3]);
}

proof fn lemma_trim_leading(s: Seq<char>, c: char, i: int)
    requires
        0 <= i <= s.len(),
        forall|j: int| 0 <= j < i ==> s[j] == c,
        i == s.len() || s[i] != c,
    ensures
        trim_leading(s, c) == s.skip(i),
    decreases i,
{
    if i == 0 {
        assert(s.skip(0) =~= s);
    } else {
        lemma_trim_leading(s.drop_first(), c, i - 1);
        assert(s.drop_first().skip(i - 1) =~= s.skip(i));
    }
}

proof fn lemma_first_index(s: Seq<char>, c: char, i: int)
    requires
        0 <= i < s.len(),
        s[i] == c,
        forall|j: int| 0 <= j < i ==> s[j] != c,
    ensures
        first_index(s, c) == i,
    decreases i,
{
    if i > 0 {
        lemma_first_index(s.drop_first(), c, i - 1);
    }
}

/// `s` without the run of `c` it starts with.
fn trim_start(s: &str, c: char) -> (r: &str)
    ensures
        r@ == trim_leading(s@, c),
{
    let n = s.unicode_len();
    let mut i: usize = 0;
    while i < n && s.get_char(i) == c
        invariant
            n == s@.len(),
            i <= n,
            forall|j: int| 0 <= j < i ==> s@[j] == c,
        decreases n - i,
    {
        i = i + 1;
    }
    proof {
        lemma_trim_leading(s@, c, i as int);
    }
    s.substring_char(i, n)
}

/// The decimal text of `n`, without leading zeros.
fn decimal_string(n: usize) -> (r: String)
    ensures
        r@ == decimal_text(n as nat),
    decreases n,
{
    if n < 10 {
        String::from_str(digit_str(n))
    } else {
        let mut s = decimal_string(n / 10);
        s.append(digit_str(n % 10));
        s
    }
}

impl TOTP {
    /// Reads a TOTP from the scheme, host, path and query pairs of an
    /// `otpauth://totp/[issuer:]account?...` URI. A missing host reads as an
    /// empty one. Skew is always 1; SHA-1, 6 digits and a 30-second step
    /// stand where the query does not say otherwise.
    pub fn from_url_parts(
        scheme: &str,
        host: Option<&str>,
        path: &str,
        query: &Vec<(String, String)>,
    ) -> (r: Result<TOTP, Error>)
        ensures
            result_view(r) == parts_spec(
                scheme@,
                match host {
                    Some(h) => Some(h@),
                    None => None,
                },
                path@,
                pairs_view(query@),
            ),
    {
        let ghost host_view = match host {
            Some(h) => Some(h@),
            None => None::<Seq<char>>,
        };
        let ghost q = pairs_view(query@);
        proof {
            reveal_strlit("otpauth");
            reveal_strlit("totp");
        }
        if !str_eq(scheme, "otpauth") {
            return Err(Error::Scheme(scheme.to_owned()));
        }
        match host {
            None => {
                return Err(Error::Host(String::new()));
            },
            Some(h) => {
                if !str_eq(h, "totp") {
                    return Err(Error::Host(h.to_owned()));
                }
            },
        }
        let label = trim_start(path, '/');
        let mut issuer: Option<String> = None;
        let raw_account: &str;
        match find_char(label, ':') {
            Some(i) => {
                proof {
                    lemma_first_index(label@, ':', i as int);
                }
                let before = label.substring_char(0, i);
                match percent_decode(before) {
                    None => {
                        return Err(Error::IssuerDecoding(before.to_owned()));
                    },
                    Some(d) => {
                        issuer = Some(d);
                    },
                }
                let n = label.unicode_len();
                let after = label.substring_char(i + 1, n);
                raw_account = trim_start(after, ':');
            },
            None => {
                raw_account = label;
            },
        }
        assert(label_split(label@).1 == raw_account@);
        let account_name = match percent_decode(raw_account) {
            None => {
                return Err(Error::AccountName(raw_account.to_owned()));
            },
            Some(a) => a,
        };
        let ghost start = QueryState {
            algorithm: Algorithm::SHA1,
            digits: 6,
            step: 30,
            secret: Seq::empty(),
            issuer: opt_text(issuer),
        };
        let mut algorithm = Algorithm::SHA1;
        let mut digits: usize = 6;
        let mut step: u64 = 30;
        let mut secret: Vec<u8> = Vec::new();
        let mut k: usize = 0;
        assert(q.skip(0) =~= q);
        assert(parts_spec(scheme@, host_view, path@, q) == finish_query(
            apply_pairs(start, q),
            account_name@,
        ));
        while k < query.len()
            invariant
                q == pairs_view(query@),
                host_view == (match host {
                    Some(h) => Some(h@),
                    None => None::<Seq<char>>,
                }),
                parts_spec(scheme@, host_view, path@, q) == finish_query(
                    apply_pairs(start, q),
                    account_name@,
                ),
                k <= query@.len(),
                apply_pairs(start, q) == apply_pairs(
                    QueryState {
                        algorithm,
                        digits,
                        step,
                        secret: secret@,
                        issuer: opt_text(issuer),
                    },
                    q.skip(k as int),
                ),
            decreases query@.len() - k,
        {
            let ghost cur = QueryState {
                algorithm,
                digits,
                step,
                secret: secret@,
                issuer: opt_text(issuer),
            };
            assert(q.skip(k as int).drop_first() =~= q.skip(k + 1));
            assert(q.skip(k as int)[0] == (query@[k as int].0@, query@[k as int].1@));
            let key = query[k].0.as_str();
            let value = query[k].1.as_str();
            assert(apply_pairs(cur, q.skip(k as int)) == match apply_pair(cur, key@, value@) {
                Ok(next) => apply_pairs(next, q.skip(k + 1)),
                Err(e) => Err(e),
            });
            proof {
                reveal_strlit("algorithm");
                reveal_strlit("digits");
                reveal_strlit("period");
                reveal_strlit("secret");
                reveal_strlit("issuer");
            }
            if str_eq(key, "algorithm") {
                match Algorithm::from_name(value) {
                    Some(a) => {
                        algorithm = a;
                    },
                    None => {
                        return Err(Error::Algorithm(value.to_owned()));
                    },
                }
            } else if str_eq(key, "digits") {
                match parse_decimal(value, usize::MAX as u64) {
                    Some(n) => {
                        digits = n as usize;
                    },
                    None => {
                        return Err(Error::Digits(value.to_owned()));
                    },
                }
            } else if str_eq(key, "period") {
                match parse_decimal(value, u64::MAX) {
                    Some(n) => {
                        step = n;
                    },
                    None => {
                        return Err(Error::Step(value.to_owned()));
                    },
                }
            } else if str_eq(key, "secret") {
                match base32_decode(value) {
                    Some(b) => {
                        secret = b;
                    },
                    None => {
                        return Err(Error::Secret(value.to_owned()));
                    },
                }
            } else if str_eq(key, "issuer") {
                let mismatch = match &issuer {
                    Some(i) => !str_eq(i.as_str(), value),
                    None => false,
                };
                if mismatch {
                    return Err(Error::IssuerMismatch(issuer.unwrap(), value.to_owned()));
                }
                issuer = Some(value.to_owned());
            }
            k = k + 1;
        }
        assert(q.skip(query@.len() as int) =~= Seq::<(Seq<char>, Seq<char>)>::empty());
        if secret.len() == 0 {
            return Err(Error::Secret(String::new()));
        }
        TOTP::new(algorithm, digits, 1, step, secret, account_name, issuer)
    }

    /// Reads a TOTP from an `otpauth://totp/[issuer:]account?...` URI: the
    /// text is parsed as a URL, then read as `from_url_parts` says.
    pub fn from_url(url: &str) -> (r: Result<TOTP, Error>)
        ensures
            !url_parses(url@) ==> r matches Err(Error::Url(_)),
            url_parses(url@) ==> result_view(r) == parts_spec(
                url_scheme_of(url@),
                url_host_of(url@),
                url_path_of(url@),
                url_query_of(url@),
            ),
    {
        match parse_url(url) {
            Err(e) => Err(Error::Url(e)),
            Ok(parts) => {
                let host = match &parts.host {
                    Some(h) => Some(h.as_str()),
                    None => None,
                };
                TOTP::from_url_parts(parts.scheme.as_str(), host, parts.path.as_str(), &parts.query)
            },
        }
    }

    /// The `otpauth` URI of this TOTP; skew and step are not written.
    pub fn get_url(&self) -> (r: String)
        ensures
            r@ == url_text(self@),
    {
        let account = percent_encode(self.account_name.as_str());
        let mut out = String::from_str("otpauth://totp/");
        match &self.issuer {
            Some(i) => {
                let issuer = percent_encode(i.as_str());
                out.append(issuer.as_str());
                out.append(":");
                out.append(account.as_str());
                out.append("?issuer=");
                out.append(issuer.as_str());
                out.append("&");
            },
            None => {
                out.append(account.as_str());
                out.append("?");
            },
        }
        out.append("secret=");
        let secret = self.to_secret_base32();
        out.append(secret.as_str());
        out.append("&digits=");
        let digits = decimal_string(self.digits);
        out.append(digits.as_str());
        out.append("&algorithm=");
        out.append(self.algorithm.name());
        assert(out@ =~= url_text(self@));
        out
    }
}

} // verus!
