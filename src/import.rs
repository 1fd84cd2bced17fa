//! Reading accounts out of pasted text: one `email,accessToken[,sessionToken]`
//! line per account.

use vstd::prelude::*;
use std::path::PathBuf;
use crate::codec::{time_stamp_now, RECORD_TIME_FORMAT};
use crate::text::{
    chars_of, find_char, index_of, lemma_index_of_bounds, same_text, trim_text, trimmed,
};
use crate::types::{default_source, Account};

verus! {

/// Why pasted text could not be read.
#[derive(Debug, Clone, Copy, PartialEq, Eq)]
pub enum ImportError {
    /// A line has fewer than two comma-separated fields.
    InvalidFormat,
}

/// Email, access credential and session credential of one line, each trimmed;
/// the session credential is empty when the line has two fields. `None` when the
/// line has no comma.
pub open spec fn line_fields(line: Seq<char>) -> Option<(Seq<char>, Seq<char>, Seq<char>)> {
    let i = index_of(line, ',', 0);
    let j = index_of(line, ',', i + 1);
    if i >= line.len() {
        None
    } else {
        Some(
            (
                trimmed(line.subrange(0, i)),
                trimmed(line.subrange(i + 1, j)),
                if j >= line.len() {
                    Seq::empty()
                } else {
                    trimmed(line.subrange(j + 1, index_of(line, ',', j + 1)))
                },
            ),
        )
    }
}

/// The fields of the non-blank lines of `text` from position `from` on, in order;
/// `None` when one of them has no comma. Lines end at `\n`.
pub open spec fn import_from(text: Seq<char>, from: int) -> Option<
    Seq<(Seq<char>, Seq<char>, Seq<char>)>,
>
    decreases text.len() - from,
{
    let e = index_of(text, '\n', from);
    let line = text.subrange(from, e);
    let rest = if e < from || e >= text.len() {
        Some(Seq::empty())
    } else {
        import_from(text, e + 1)
    };
    if from < 0 || from > text.len() {
        Some(Seq::empty())
    } else if trimmed(line).len() == 0 {
        rest
    } else {
        match line_fields(line) {
            None => None,
            Some(f) => match rest {
                None => None,
                Some(r) => Some(seq![f] + r),
            },
        }
    }
}

/// `done` followed by what `r` holds, if it holds anything.
pub open spec fn prepended<A>(done: Seq<A>, r: Option<Seq<A>>) -> Option<Seq<A>> {
    match r {
        Some(x) => Some(done + x),
        None => None,
    }
}

/// The account that the fields of one line describe: the access credential
/// doubles as the refresh credential.
pub open spec fn account_matches(a: Account, f: (Seq<char>, Seq<char>, Seq<char>)) -> bool {
    &&& a.index == 0
    &&& a.email@ == f.0
    &&& a.access_token@ == f.1
    &&& a.refresh_token@ == f.1
    &&& a.cookie@ == f.2
    &&& a.days_remaining@ == "0"@
    &&& a.status@ == "unknown"@
    &&& a.source@ == "imported"@
}

/// The largest of `s`, or 0 when `s` is empty.
pub open spec fn largest_or_zero(s: Seq<i32>) -> int
    decreases s.len(),
{
    if s.len() == 0 {
        0
    } else if s.len() == 1 {
        s[0] as int
    } else if s.last() > largest_or_zero(s.drop_last()) {
        s.last() as int
    } else {
        largest_or_zero(s.drop_last())
    }
}

/// The index that a newly added account gets: one more than the largest index in
/// `indices`, or 1 when there is none; `None` when the largest is already
/// `i32::MAX`.
pub fn next_account_index(indices: &Vec<i32>) -> (r: Option<i32>)
    ensures
        match r {
            Some(k) => k == largest_or_zero(indices@) + 1,
            None => largest_or_zero(indices@) == i32::MAX,
        },
{
    let mut m: i32 = 0;
    let mut k: usize = 0;
    while k < indices.len()
        invariant
            k <= indices@.len(),
            m == largest_or_zero(indices@.subrange(0, k as int)),
        decreases indices@.len() - k,
    {
        proof {
            assert(indices@.subrange(0, k + 1).drop_last() =~= indices@.subrange(0, k as int));
        }
        if k == 0 || indices[k] > m {
            m = indices[k];
        }
        k = k + 1;
    }
    assert(indices@.subrange(0, indices@.len() as int) =~= indices@);
    if m == i32::MAX {
        None
    } else {
        Some(m + 1)
    }
}

pub open spec fn is_digit(c: char) -> bool {
    '0' <= c <= '9'
}

/// The value of a string of decimal digits.
pub open spec fn decimal(s: Seq<char>) -> int
    decreases s.len(),
{
    if s.len() == 0 {
        0
    } else {
        decimal(s.drop_last()) * 10 + (s.last() as int - '0' as int)
    }
}

/// `s` without its leading sign, if it has one.
pub open spec fn unsigned_part(s: Seq<char>) -> Seq<char> {
    if s.len() > 0 && (s[0] == '-' || s[0] == '+') {
        s.drop_first()
    } else {
        s
    }
}

pub open spec fn all_digits(d: Seq<char>) -> bool {
    forall|i: int| 0 <= i < d.len() ==> is_digit(#[trigger] d[i])
}

/// The `i32` that `s` spells, as `i32::from_str` reads it: an optional `+` or `-`,
/// then one or more decimal digits, with a value in range; `None` otherwise.
pub open spec fn parsed_i32(s: Seq<char>) -> Option<i32> {
    let d = unsigned_part(s);
    let v = if s.len() > 0 && s[0] == '-' {
        -decimal(d)
    } else {
        decimal(d)
    };
    if d.len() == 0 || !all_digits(d) {
        None
    } else if i32::MIN <= v <= i32::MAX {
        Some(v as i32)
    } else {
        None
    }
}

proof fn lemma_decimal_grows(s: Seq<char>, k: int)
    requires
        0 <= k <= s.len(),
        all_digits(s),
    ensures
        decimal(s.subrange(0, k)) <= decimal(s),
    decreases s.len() - k,
{
    if k < s.len() {
        lemma_decimal_grows(s, k + 1);
        let t = s.subrange(0, k + 1);
        assert(t.drop_last() =~= s.subrange(0, k));
        assert(all_digits(s.subrange(0, k)));
        lemma_decimal_nonneg(s.subrange(0, k));
        assert(is_digit(t.last()));
    } else {
        assert(s.subrange(0, k) =~= s);
    }
}

proof fn lemma_decimal_nonneg(s: Seq<char>)
    requires
        all_digits(s),
    ensures
        0 <= decimal(s),
    decreases s.len(),
{
    if s.len() > 0 {
        assert(all_digits(s.drop_last()));
        lemma_decimal_nonneg(s.drop_last());
        assert(is_digit(s.last()));
    }
}

/// Reads `s` as an `i32`, as `i32::from_str` does.
pub fn parse_i32(s: &str) -> (r: Option<i32>)
    ensures
        r == parsed_i32(s@),
{
    let v = chars_of(s);
    let n = v.len();
    let negative = n > 0 && v[0] == '-';
    let start: usize = if n > 0 && (v[0] == '-' || v[0] == '+') { 1 } else { 0 };
    let ghost digits = unsigned_part(s@);
    assert(digits =~= s@.subrange(start as int, n as int));
    if start >= n {
        return None;
    }
    let mut acc: i64 = 0;
    let mut k: usize = start;
    assert(digits.subrange(0, 0) =~= Seq::<char>::empty());
    while k < n
        invariant
            start <= k <= n == v@.len(),
            v@ == s@,
            digits == s@.subrange(start as int, n as int),
            digits == unsigned_part(s@),
            negative == (s@.len() > 0 && s@[0] == '-'),
            forall|i: int| 0 <= i < k - start ==> is_digit(#[trigger] digits[i]),
            acc == decimal(digits.subrange(0, k - start)),
            0 <= acc <= 2147483648,
        decreases n - k,
    {
        let c = v[k];
        if !('0' <= c && c <= '9') {
            assert(!is_digit(digits[k - start]));
            assert(!all_digits(digits));
            return None;
        }
        let ghost t = digits.subrange(0, k + 1 - start);
        assert(t.drop_last() =~= digits.subrange(0, k - start));
        assert(t.last() == c);
        let next = acc * 10 + (c as i64 - '0' as i64);
        k = k + 1;
        if next > 2147483648 {
            let mut m = k;
            while m < n
                invariant
                    start <= k <= m <= n == v@.len(),
                    v@ == s@,
                    digits == s@.subrange(start as int, n as int),
                    digits == unsigned_part(s@),
                    forall|i: int| 0 <= i < m - start ==> is_digit(#[trigger] digits[i]),
                decreases n - m,
            {
                if !('0' <= v[m] && v[m] <= '9') {
                    assert(!is_digit(digits[m - start]));
                    assert(!all_digits(digits));
                    return None;
                }
                m = m + 1;
            }
            proof {
                assert(all_digits(digits));
                lemma_decimal_grows(digits, (k - start) as int);
            }
            return None;
        }
        acc = next;
    }
    assert(digits.subrange(0, n - start) =~= digits);
    assert(all_digits(digits));
    if negative {
        Some((-acc) as i32)
    } else if acc > 2147483647 {
        None
    } else {
        Some(acc as i32)
    }
}

/// The account that one stored row describes, when the row has at least eight
/// fields: index (0 when it does not read as an `i32`), email, access and refresh
/// credentials, cookie, days remaining, status, record time, then the source,
/// `"imported"` when absent.
pub fn account_from_record(fields: &Vec<String>) -> (r: Option<Account>)
    ensures
        fields@.len() < 8 <==> r is None,
        r matches Some(a) ==> {
            &&& a.index == match parsed_i32(fields@[0]@) {
                Some(i) => i,
                None => 0,
            }
            &&& a.email == fields@[1]
            &&& a.access_token == fields@[2]
            &&& a.refresh_token == fields@[3]
            &&& a.cookie == fields@[4]
            &&& a.days_remaining == fields@[5]
            &&& a.status == fields@[6]
            &&& a.record_time == fields@[7]
            &&& a.source@ == if fields@.len() > 8 {
                fields@[8]@
            } else {
                "imported"@
            }
        },
{
    if fields.len() < 8 {
        return None;
    }
    let index = match parse_i32(fields[0].as_str()) {
        Some(i) => i,
        None => 0,
    };
    let source = if fields.len() > 8 {
        fields[8].clone()
    } else {
        default_source()
    };
    Some(
        Account {
            index,
            email: fields[1].clone(),
            access_token: fields[2].clone(),
            refresh_token: fields[3].clone(),
            cookie: fields[4].clone(),
            days_remaining: fields[5].clone(),
            status: fields[6].clone(),
            record_time: fields[7].clone(),
            source,
        },
    )
}

/// The position of the first of `emails` that is `email`, as updating an account
/// looks it up.
pub fn position_of_email(emails: &Vec<String>, email: &str) -> (r: Option<usize>)
    ensures
        match r {
            Some(i) => i < emails@.len() && emails@[i as int]@ == email@ && forall|j: int|
                0 <= j < i ==> (#[trigger] emails@[j])@ != email@,
            None => forall|j: int| 0 <= j < emails@.len() ==> (#[trigger] emails@[j])@ != email@,
        },
{
    let mut i: usize = 0;
    while i < emails.len()
        invariant
            i <= emails@.len(),
            forall|j: int| 0 <= j < i ==> (#[trigger] emails@[j])@ != email@,
        decreases emails@.len() - i,
    {
        if same_text(emails[i].as_str(), email) {
            return Some(i);
        }
        i = i + 1;
    }
    None
}

/// Which of `emails` stay when the account `email` is deleted: exactly those with
/// another address.
pub fn kept_after_delete(emails: &Vec<String>, email: &str) -> (r: Vec<bool>)
    ensures
        r@.len() == emails@.len(),
        forall|i: int| 0 <= i < r@.len() ==> r@[i] == ((#[trigger] emails@[i])@ != email@),
{
    let mut r: Vec<bool> = Vec::new();
    let mut i: usize = 0;
    while i < emails.len()
        invariant
            i <= emails@.len(),
            r@.len() == i,
            forall|j: int| 0 <= j < i ==> r@[j] == ((#[trigger] emails@[j])@ != email@),
        decreases emails@.len() - i,
    {
        r.push(!same_text(emails[i].as_str(), email));
        i = i + 1;
    }
    r
}

/// The file of stored accounts, and the reading of pasted account lines.
pub struct CsvManager {
    file_path: PathBuf,
}

impl CsvManager {
    pub closed spec fn file_path_view(&self) -> PathBuf {
        self.file_path
    }

    pub fn new(file_path: PathBuf) -> (r: CsvManager)
        ensures
            r.file_path_view() == file_path,
    {
        CsvManager { file_path }
    }

    /// Where the accounts are stored.
    pub fn file_path(&self) -> (r: &PathBuf)
        ensures
            *r == self.file_path_view(),
    {
        &self.file_path
    }

    /// Reads one `email,accessToken[,sessionToken]` line; fields beyond the third
    /// are ignored.
    pub fn parse_account_line(&self, line: &str) -> (r: Result<Account, ImportError>)
        ensures
            match r {
                Ok(a) => line_fields(line@) is Some && account_matches(a, line_fields(line@)->0),
                Err(e) => line_fields(line@) is None && e == ImportError::InvalidFormat,
            },
    {
        let v = chars_of(line);
        let n = v.len();
        let i = find_char(&v, ',', 0);
        proof {
            lemma_index_of_bounds(v@, ',', 0);
        }
        if i >= n {
            return Err(ImportError::InvalidFormat);
        }
        let j = find_char(&v, ',', i + 1);
        proof {
            lemma_index_of_bounds(v@, ',', i + 1);
        }
        let email = trim_text(line.substring_char(0, i)).to_string();
        let access_token = trim_text(line.substring_char(i + 1, j)).to_string();
        let session_token = if j >= n {
            String::new()
        } else {
            let k = find_char(&v, ',', j + 1);
            proof {
                lemma_index_of_bounds(v@, ',', j + 1);
            }
            trim_text(line.substring_char(j + 1, k)).to_string()
        };
        Ok(
            Account {
                index: 0,
                email,
                access_token: access_token.clone(),
                refresh_token: access_token,
                cookie: session_token,
                days_remaining: "0".to_string(),
                status: "unknown".to_string(),
                record_time: time_stamp_now(RECORD_TIME_FORMAT),
                source: default_source(),
            },
        )
    }

    /// Reads every non-blank line of `text` as an account line; fails on the first
    /// line that has no comma.
    pub fn parse_import_text(&self, text: &str) -> (r: Result<Vec<Account>, ImportError>)
        ensures
            match r {
                Ok(accounts) => import_from(text@, 0) is Some && accounts@.len() == import_from(
                    text@,
                    0,
                )->0.len() && forall|i: int|
                    0 <= i < accounts@.len() ==> account_matches(
                        #[trigger] accounts@[i],
                        import_from(text@, 0)->0[i],
                    ),
                Err(e) => import_from(text@, 0) is None && e == ImportError::InvalidFormat,
            },
    {
        let v = chars_of(text);
        let n = v.len();
        let mut accounts: Vec<Account> = Vec::new();
        let ghost mut done: Seq<(Seq<char>, Seq<char>, Seq<char>)> = Seq::empty();
        let mut pos: usize = 0;
        let mut finished = false;
        assert(done + import_from(text@, 0)->0 =~= import_from(text@, 0)->0);
        while !finished
            invariant
                pos <= n == v@.len(),
                v@ == text@,
                accounts@.len() == done.len(),
                forall|i: int|
                    0 <= i < accounts@.len() ==> account_matches(#[trigger] accounts@[i], done[i]),
                finished ==> import_from(text@, 0) == Some(done),
                !finished ==> import_from(text@, 0) == prepended(done, import_from(text@, pos as int)),
            decreases n - pos + (if finished { 0int } else { 1int }),
        {
            let e = find_char(&v, '\n', pos);
            proof {
                lemma_index_of_bounds(v@, '\n', pos as int);
            }
            let line = text.substring_char(pos, e);
            let ghost rest = if e >= n {
                Some(Seq::<(Seq<char>, Seq<char>, Seq<char>)>::empty())
            } else {
                import_from(text@, e + 1)
            };
            let t = trim_text(line);
            if !t.is_empty() {
                match self.parse_account_line(line) {
                    Ok(a) => {
                        let ghost f = line_fields(line@)->0;
                        proof {
                            if rest is Some {
                                assert(done + (seq![f] + rest->0) =~= done.push(f) + rest->0);
                            }
                        }
                        accounts.push(a);
                        proof {
                            done = done.push(f);
                        }
                    },
                    Err(err) => {
                        return Err(err);
                    },
                }
            }
            if e >= n {
                finished = true;
                proof {
                    assert(done + Seq::<(Seq<char>, Seq<char>, Seq<char>)>::empty() =~= done);
                }
            } else {
                pos = e + 1;
            }
        }
        Ok(accounts)
    }
}

} // verus!
