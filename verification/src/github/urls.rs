//! Recognizers for the URL shapes the tool meets: pull-request web addresses
//! and git remote URLs, plus the `git remote -v` line format.

use vstd::prelude::*;

use crate::diff::parser::{skip_digits, skip_ws};
use crate::github::types::PrRef;
use crate::text::{
    char_is_digit, chars_eq, chars_match_at, chars_to_string, copy_range, digits_val, is_digit,
    is_space, matches_at, starts_with, str_chars,
};

verus! {

/// First position at or after `i` whose character is a slash, or the length.
pub open spec fn skip_to_slash(s: Seq<char>, i: int) -> int
    decreases s.len() - i,
{
    if 0 <= i < s.len() && s[i] != '/' {
        skip_to_slash(s, i + 1)
    } else {
        i
    }
}

/// First position at or after `i` whose character is whitespace, or the length.
pub open spec fn skip_non_ws(s: Seq<char>, i: int) -> int
    decreases s.len() - i,
{
    if 0 <= i < s.len() && !is_space(s[i]) {
        skip_non_ws(s, i + 1)
    } else {
        i
    }
}

fn scan_to_slash(s: &Vec<char>, i: usize) -> (r: usize)
    requires
        i <= s@.len(),
    ensures
        i <= r <= s@.len(),
        r == skip_to_slash(s@, i as int),
{
    let mut cur = i;
    while cur < s.len() && s[cur] != '/'
        invariant
            i <= cur <= s@.len(),
            skip_to_slash(s@, i as int) == skip_to_slash(s@, cur as int),
        decreases s@.len() - cur,
    {
        cur += 1;
    }
    cur
}

fn scan_non_ws(s: &Vec<char>, i: usize) -> (r: usize)
    requires
        i <= s@.len(),
    ensures
        i <= r <= s@.len(),
        r == skip_non_ws(s@, i as int),
{
    let mut cur = i;
    while cur < s.len() && !crate::text::char_is_space(s[cur])
        invariant
            i <= cur <= s@.len(),
            skip_non_ws(s@, i as int) == skip_non_ws(s@, cur as int),
        decreases s@.len() - cur,
    {
        cur += 1;
    }
    cur
}

fn scan_ws_here(s: &Vec<char>, i: usize) -> (r: usize)
    requires
        i <= s@.len(),
    ensures
        i <= r <= s@.len(),
        r == skip_ws(s@, i as int),
{
    let mut cur = i;
    while cur < s.len() && crate::text::char_is_space(s[cur])
        invariant
            i <= cur <= s@.len(),
            skip_ws(s@, i as int) == skip_ws(s@, cur as int),
        decreases s@.len() - cur,
    {
        cur += 1;
    }
    cur
}

pub open spec fn gh_host_prefix() -> Seq<char> {
    seq!['g', 'i', 't', 'h', 'u', 'b', '.', 'c', 'o', 'm', '/']
}

pub open spec fn pull_segment() -> Seq<char> {
    seq!['/', 'p', 'u', 'l', 'l', '/']
}

/// The pull-request reference pattern matches at position `p` of `s`:
/// `github.com/<owner>/<repo>/pull/<digit>`, owner and repo non-empty and
/// slash-free.
pub open spec fn pr_match_at(s: Seq<char>, p: int) -> bool {
    matches_at(s, p, gh_host_prefix()) && {
        let o1 = skip_to_slash(s, p + 11);
        let r1 = skip_to_slash(s, o1 + 1);
        &&& o1 > p + 11
        &&& o1 < s.len()
        &&& r1 > o1 + 1
        &&& matches_at(s, r1, pull_segment())
        &&& r1 + 6 < s.len()
        &&& is_digit(s[r1 + 6])
    }
}

/// Position of the first pull-request reference in `s`, or the length.
pub open spec fn first_pr_match(s: Seq<char>, p: int) -> int
    decreases s.len() - p,
{
    if !(0 <= p < s.len()) {
        s.len() as int
    } else if pr_match_at(s, p) {
        p
    } else {
        first_pr_match(s, p + 1)
    }
}

/// Owner, repository and number of the first pull-request reference in `s`;
/// `None` when there is none, or when the number does not fit in `u64`.
pub open spec fn spec_parse_pr_url(s: Seq<char>) -> Option<(Seq<char>, Seq<char>, u64)> {
    let p = first_pr_match(s, 0);
    if p < s.len() {
        let o1 = skip_to_slash(s, p + 11);
        let r1 = skip_to_slash(s, o1 + 1);
        let n1 = skip_digits(s, r1 + 6);
        let v = digits_val(s, r1 + 6, n1);
        if v <= u64::MAX {
            Some((s.subrange(p + 11, o1), s.subrange(o1 + 1, r1), v as u64))
        } else {
            None
        }
    } else {
        None
    }
}

fn pr_match_at_exec(s: &Vec<char>, p: usize) -> (b: bool)
    requires
        p <= s@.len(),
    ensures
        b == pr_match_at(s@, p as int),
{
    let host = vec!['g', 'i', 't', 'h', 'u', 'b', '.', 'c', 'o', 'm', '/'];
    proof {
        assert(host@ =~= gh_host_prefix());
    }
    if !chars_match_at(s, p, &host) {
        return false;
    }
    let n = s.len();
    proof {
        assert(p + 11 <= n);
    }
    let o1 = scan_to_slash(s, p + 11);
    if !(o1 > p + 11 && o1 < s.len()) {
        return false;
    }
    let r1 = scan_to_slash(s, o1 + 1);
    if !(r1 > o1 + 1) {
        return false;
    }
    let pull = vec!['/', 'p', 'u', 'l', 'l', '/'];
    proof {
        assert(pull@ =~= pull_segment());
    }
    if !chars_match_at(s, r1, &pull) {
        return false;
    }
    r1 + 6 < s.len() && char_is_digit(s[r1 + 6])
}

/// Value of the digit run `l[a..b]` when it fits in `u64`.
fn parse_u64_run(l: &Vec<char>, a: usize, b: usize) -> (r: Option<u64>)
    requires
        a <= b <= l@.len(),
        forall|j: int| a <= j < b ==> is_digit(l@[j]),
    ensures
        r is Some <==> digits_val(l@, a as int, b as int) <= u64::MAX,
        r matches Some(v) ==> v == digits_val(l@, a as int, b as int),
{
    let mut acc: u128 = 0;
    let mut j = a;
    while j < b
        invariant
            a <= j <= b <= l@.len(),
            forall|k: int| a <= k < b ==> is_digit(l@[k]),
            acc <= u64::MAX as u128 ==> acc == digits_val(l@, a as int, j as int),
            acc > u64::MAX as u128 ==> digits_val(l@, a as int, j as int) > u64::MAX,
        decreases b - j,
    {
        let c = l[j];
        let d: u128 = if c == '0' {
            0
        } else if c == '1' {
            1
        } else if c == '2' {
            2
        } else if c == '3' {
            3
        } else if c == '4' {
            4
        } else if c == '5' {
            5
        } else if c == '6' {
            6
        } else if c == '7' {
            7
        } else if c == '8' {
            8
        } else {
            9
        };
        proof {
            assert(digits_val(l@, a as int, j + 1 as int) == digits_val(l@, a as int, j as int)
                * 10 + crate::text::digit_val(l@[j as int]));
            crate::text::lemma_digits_val_nonneg(l@, a as int, j as int);
        }
        if acc <= u64::MAX as u128 {
            acc = acc * 10 + d;
        }
        j += 1;
    }
    if acc <= u64::MAX as u128 {
        Some(acc as u64)
    } else {
        None
    }
}

/// Parse a pull-request URL into its owner, repository and number. `Err`
/// carries the message for an address without a recognizable reference, and
/// comes exactly when `spec_parse_pr_url` finds none.
pub fn parse_pr_url(url: &str) -> (r: Result<PrRef, String>)
    ensures
        match spec_parse_pr_url(url@) {
            Some(t) => r matches Ok(pr) && pr.owner@ == t.0 && pr.repo@ == t.1 && pr.number == t.2,
            None => r matches Err(e) && e@ == "Invalid GitHub PR URL: "@ + url@,
        },
{
    let chars = str_chars(url);
    let n = chars.len();
    let mut p: usize = 0;
    while p < n
        invariant
            0 <= p <= n == chars@.len(),
            chars@ == url@,
            first_pr_match(chars@, 0) == first_pr_match(chars@, p as int),
        decreases n - p,
    {
        if pr_match_at_exec(&chars, p) {
            let o1 = scan_to_slash(&chars, p + 11);
            let r1 = scan_to_slash(&chars, o1 + 1);
            let n1 = scan_digits_here(&chars, r1 + 6);
            let owner_chars = copy_range(&chars, p + 11, o1);
            let repo_chars = copy_range(&chars, o1 + 1, r1);
            match parse_u64_run(&chars, r1 + 6, n1) {
                Some(v) => {
                    return Ok(
                        PrRef {
                            owner: chars_to_string(&owner_chars),
                            repo: chars_to_string(&repo_chars),
                            number: v,
                        },
                    );
                },
                None => {
                    return Err(invalid_pr_url_message(url));
                },
            }
        }
        p += 1;
    }
    Err(invalid_pr_url_message(url))
}

fn scan_digits_here(s: &Vec<char>, i: usize) -> (r: usize)
    requires
        i <= s@.len(),
    ensures
        i <= r <= s@.len(),
        r == skip_digits(s@, i as int),
        forall|j: int| i <= j < r ==> is_digit(s@[j]),
    decreases s@.len() - i,
{
    let mut cur = i;
    while cur < s.len() && char_is_digit(s[cur])
        invariant
            i <= cur <= s@.len(),
            skip_digits(s@, i as int) == skip_digits(s@, cur as int),
            forall|j: int| i <= j < cur ==> is_digit(s@[j]),
        decreases s@.len() - cur,
    {
        cur += 1;
    }
    cur
}

fn invalid_pr_url_message(url: &str) -> (r: String)
    ensures
        r@ == "Invalid GitHub PR URL: "@ + url@,
{
    let mut s = String::from_str("Invalid GitHub PR URL: ");
    s.append(url);
    s
}

pub open spec fn ssh_remote_prefix() -> Seq<char> {
    seq!['g', 'i', 't', '@', 'g', 'i', 't', 'h', 'u', 'b', '.', 'c', 'o', 'm', ':']
}

pub open spec fn https_remote_prefix() -> Seq<char> {
    seq!['h', 't', 't', 'p', 's', ':', '/', '/', 'g', 'i', 't', 'h', 'u', 'b', '.', 'c', 'o', 'm', '/']
}

pub open spec fn http_remote_prefix() -> Seq<char> {
    seq!['h', 't', 't', 'p', ':', '/', '/', 'g', 'i', 't', 'h', 'u', 'b', '.', 'c', 'o', 'm', '/']
}

pub open spec fn git_suffix() -> Seq<char> {
    seq!['.', 'g', 'i', 't']
}

/// One trailing `.git` stripped, unless that would leave the name empty.
pub open spec fn strip_git_suffix(t: Seq<char>) -> Seq<char> {
    if t.len() > 4 && t.subrange(t.len() - 4, t.len() as int) == git_suffix() {
        t.take(t.len() - 4)
    } else {
        t
    }
}

/// Owner and repository of a remote-URL body `<owner>/<repo>[.git]`, both
/// non-empty and slash-free.
pub open spec fn remote_owner_repo(b: Seq<char>) -> Option<(Seq<char>, Seq<char>)> {
    let k = skip_to_slash(b, 0);
    if 0 < k && k + 1 < b.len() && skip_to_slash(b, k + 1) == b.len() {
        Some((b.take(k), strip_git_suffix(b.skip(k + 1))))
    } else {
        None
    }
}

/// Owner and repository of a git remote URL pointing at the code host, in
/// either SSH or HTTP(S) form.
pub open spec fn spec_remote_repo(u: Seq<char>) -> Option<(Seq<char>, Seq<char>)> {
    if starts_with(u, ssh_remote_prefix()) {
        remote_owner_repo(u.skip(15))
    } else if starts_with(u, https_remote_prefix()) {
        remote_owner_repo(u.skip(19))
    } else if starts_with(u, http_remote_prefix()) {
        remote_owner_repo(u.skip(18))
    } else {
        None
    }
}

fn remote_repo_matches(u: &Vec<char>, oc: &Vec<char>, rc: &Vec<char>) -> (b: bool)
    ensures
        b == (spec_remote_repo(u@) matches Some(t) && t.0 == oc@ && t.1 == rc@),
{
    let ssh = vec!['g', 'i', 't', '@', 'g', 'i', 't', 'h', 'u', 'b', '.', 'c', 'o', 'm', ':'];
    let https = vec![
        'h', 't', 't', 'p', 's', ':', '/', '/', 'g', 'i', 't', 'h', 'u', 'b', '.', 'c', 'o', 'm',
        '/',
    ];
    let http = vec![
        'h', 't', 't', 'p', ':', '/', '/', 'g', 'i', 't', 'h', 'u', 'b', '.', 'c', 'o', 'm', '/',
    ];
    proof {
        assert(ssh@ =~= ssh_remote_prefix());
        assert(https@ =~= https_remote_prefix());
        assert(http@ =~= http_remote_prefix());
        assert(matches_at(u@, 0, ssh@) == starts_with(u@, ssh_remote_prefix()));
        assert(matches_at(u@, 0, https@) == starts_with(u@, https_remote_prefix()));
        assert(matches_at(u@, 0, http@) == starts_with(u@, http_remote_prefix()));
    }
    let start: usize;
    if chars_match_at(u, 0, &ssh) {
        start = 15;
    } else if chars_match_at(u, 0, &https) {
        start = 19;
    } else if chars_match_at(u, 0, &http) {
        start = 18;
    } else {
        return false;
    }
    let body = copy_range(u, start, u.len());
    proof {
        assert(body@ =~= u@.skip(start as int));
    }
    let k = scan_to_slash(&body, 0);
    if !(k > 0 && k + 1 < body.len()) {
        return false;
    }
    if scan_to_slash(&body, k + 1) != body.len() {
        return false;
    }
    let owner_part = copy_range(&body, 0, k);
    proof {
        assert(owner_part@ =~= body@.take(k as int));
    }
    let tail = copy_range(&body, k + 1, body.len());
    proof {
        assert(tail@ =~= body@.skip(k + 1 as int));
    }
    let git = vec!['.', 'g', 'i', 't'];
    proof {
        assert(git@ =~= git_suffix());
    }
    let repo_part = if tail.len() > 4 && chars_match_at(&tail, tail.len() - 4, &git) {
        let stripped = copy_range(&tail, 0, tail.len() - 4);
        proof {
            assert(tail@.subrange(tail@.len() - 4, tail@.len() as int) =~= git_suffix());
            assert(stripped@ =~= strip_git_suffix(tail@));
        }
        stripped
    } else {
        proof {
            if tail@.len() > 4 {
                assert(matches_at(tail@, tail@.len() - 4, git@) == (tail@.subrange(
                    tail@.len() - 4,
                    tail@.len() as int,
                ) == git_suffix()));
            }
        }
        tail
    };
    chars_eq(&owner_part, oc) && chars_eq(&repo_part, rc)
}

/// Whether a git remote URL points at exactly the repository
/// `owner`/`repo` on the code host.
pub fn remote_points_to_repo(remote_url: &str, owner: &str, repo: &str) -> (b: bool)
    ensures
        b == (spec_remote_repo(remote_url@) matches Some(t) && t.0 == owner@ && t.1 == repo@),
{
    let u = str_chars(remote_url);
    let oc = str_chars(owner);
    let rc = str_chars(repo);
    remote_repo_matches(&u, &oc, &rc)
}

pub open spec fn fetch_suffix() -> Seq<char> {
    seq!['(', 'f', 'e', 't', 'c', 'h', ')']
}

/// Name and URL of one `git remote -v` line of the form
/// `<name> <url> (fetch)`.
pub open spec fn spec_remote_line(l: Seq<char>) -> Option<(Seq<char>, Seq<char>)> {
    let k1 = skip_non_ws(l, 0);
    let k2 = skip_ws(l, k1);
    let k3 = skip_non_ws(l, k2);
    let k4 = skip_ws(l, k3);
    if k1 > 0 && k2 > k1 && k3 > k2 && k4 > k3 && l.skip(k4) == fetch_suffix() {
        Some((l.take(k1), l.subrange(k2, k3)))
    } else {
        None
    }
}

fn parse_remote_line(l: &Vec<char>) -> (r: Option<(Vec<char>, Vec<char>)>)
    ensures
        match spec_remote_line(l@) {
            Some(t) => r matches Some(p) && p.0@ == t.0 && p.1@ == t.1,
            None => r is None,
        },
{
    let k1 = scan_non_ws(l, 0);
    let k2 = scan_ws_here(l, k1);
    let k3 = scan_non_ws(l, k2);
    let k4 = scan_ws_here(l, k3);
    if !(k1 > 0 && k2 > k1 && k3 > k2 && k4 > k3) {
        return None;
    }
    let rest = copy_range(l, k4, l.len());
    let fetch = vec!['(', 'f', 'e', 't', 'c', 'h', ')'];
    proof {
        assert(fetch@ =~= fetch_suffix());
        assert(rest@ =~= l@.skip(k4 as int));
    }
    if !chars_eq(&rest, &fetch) {
        return None;
    }
    let name = copy_range(l, 0, k1);
    let url = copy_range(l, k2, k3);
    proof {
        assert(name@ =~= l@.take(k1 as int));
    }
    Some((name, url))
}

/// The name of the first `git remote -v` fetch line whose URL points at
/// `owner`/`repo`, scanned in order.
pub open spec fn spec_find_remote(ls: Seq<Seq<char>>, owner: Seq<char>, repo: Seq<char>) -> Option<
    Seq<char>,
>
    decreases ls.len(),
{
    if ls.len() == 0 {
        None
    } else {
        match spec_remote_line(ls[0]) {
            Some(t) => if spec_remote_repo(t.1) matches Some(p) && p.0 == owner && p.1 == repo {
                Some(t.0)
            } else {
                spec_find_remote(ls.drop_first(), owner, repo)
            },
            None => spec_find_remote(ls.drop_first(), owner, repo),
        }
    }
}

/// Find, among the lines of `git remote -v` output, the first fetch remote
/// that points at `owner`/`repo`, and return its name.
pub fn find_repo_remote(lines: &Vec<String>, owner: &str, repo: &str) -> (r: Option<String>)
    ensures
        match spec_find_remote(lines.deep_view(), owner@, repo@) {
            Some(n) => r matches Some(s) && s@ == n,
            None => r is None,
        },
{
    let oc = str_chars(owner);
    let rc = str_chars(repo);
    let n = lines.len();
    let mut i: usize = 0;
    proof {
        assert(lines.deep_view().skip(0) =~= lines.deep_view());
    }
    while i < n
        invariant
            0 <= i <= n == lines@.len(),
            oc@ == owner@,
            rc@ == repo@,
            spec_find_remote(lines.deep_view(), owner@, repo@) == spec_find_remote(
                lines.deep_view().skip(i as int),
                owner@,
                repo@,
            ),
        decreases n - i,
    {
        let lc = str_chars(lines[i].as_str());
        proof {
            let sub = lines.deep_view().skip(i as int);
            assert(sub[0] =~= lines@[i as int]@);
            assert(sub.drop_first() =~= lines.deep_view().skip(i + 1 as int));
        }
        if let Some((name, url)) = parse_remote_line(&lc) {
            if remote_repo_matches(&url, &oc, &rc) {
                return Some(chars_to_string(&name));
            }
        }
        i += 1;
    }
    proof {
        assert(lines.deep_view().skip(n as int) =~= Seq::<Seq<char>>::empty());
    }
    None
}

} // verus!
