//! The argument reinterpretation filter: passes a raw argument list through
//! while removing the flags that would supply a commit message (the bundled
//! short form `-<letters>m<rest>` and the long form `--message` /
//! `--message=<text>`), together with the message text itself.

use vstd::prelude::*;
use vstd::string::StrSliceExecFns;

verus! {

/// Whether a character may stand in a short-flag bundle: an ASCII letter.
pub open spec fn is_flag_letter(c: char) -> bool {
    ('a' as u32 <= c as u32 && c as u32 <= 'z' as u32) || ('A' as u32 <= c as u32 && c as u32
        <= 'Z' as u32)
}

/// Scans `t` from position `j` while the characters are ASCII letters and
/// returns the position of the last `m` seen, starting from `best`
/// (`-1` when none was seen).
pub open spec fn short_scan(t: Seq<char>, j: int, best: int) -> int
    decreases t.len() - j,
{
    if j < 0 || j >= t.len() || !is_flag_letter(t[j]) {
        best
    } else {
        short_scan(t, j + 1, if t[j] == 'm' { j } else { best })
    }
}

/// The split position of a token of the bundled short-message form
/// `-<letters>m<rest>`: the greatest position `i >= 1` with `t[1..i]` all
/// ASCII letters and `t[i] == 'm'`; `-1` when the token has no such form.
pub open spec fn short_msg_split(t: Seq<char>) -> int {
    if t.len() >= 1 && t[0] == '-' {
        short_scan(t, 1, -1)
    } else {
        -1
    }
}

/// Whether a token matches the bundled short-message form.
pub open spec fn is_short_msg(t: Seq<char>) -> bool {
    short_msg_split(t) >= 1
}

/// Whether a token matches the long message form: exactly `--message`, or
/// `--message=` followed by anything.
pub open spec fn is_long_msg(t: Seq<char>) -> bool {
    t.len() >= 9 && t.subrange(0, 9) == "--message"@ && (t.len() == 9 || t[9] == '=')
}

/// The tokens the filter emits for one input token that is not itself
/// skipped: the residual flag bundle for a short-message token, nothing for
/// a long-message token, and the token itself otherwise.
pub open spec fn emitted(t: Seq<char>) -> Seq<Seq<char>> {
    if is_short_msg(t) {
        if short_msg_split(t) > 1 {
            seq![t.subrange(0, short_msg_split(t))]
        } else {
            Seq::empty()
        }
    } else if is_long_msg(t) {
        Seq::empty()
    } else {
        seq![t]
    }
}

/// Whether a token makes the filter skip the following token (a message flag
/// whose message is supplied as the next argument).
pub open spec fn consumes_next(t: Seq<char>) -> bool {
    if is_short_msg(t) {
        short_msg_split(t) + 1 == t.len()
    } else if is_long_msg(t) {
        t.len() == 9
    } else {
        false
    }
}

/// The filter as a single left-to-right pass with a one-token skip state.
pub open spec fn filter_rec(args: Seq<Seq<char>>, skip: bool) -> Seq<Seq<char>>
    decreases args.len(),
{
    if args.len() == 0 {
        Seq::empty()
    } else if skip {
        filter_rec(args.drop_first(), false)
    } else {
        emitted(args.first()) + filter_rec(args.drop_first(), consumes_next(args.first()))
    }
}

/// What filtering an argument list returns.
pub open spec fn filter_spec(args: Seq<Seq<char>>) -> Seq<Seq<char>> {
    filter_rec(args, false)
}

/// The skip state left behind after the filter has passed over `args`.
pub open spec fn end_skip(args: Seq<Seq<char>>, skip: bool) -> bool
    decreases args.len(),
{
    if args.len() == 0 {
        skip
    } else if skip {
        end_skip(args.drop_first(), false)
    } else {
        end_skip(args.drop_first(), consumes_next(args.first()))
    }
}

fn is_letter(c: char) -> (r: bool)
    ensures
        r == is_flag_letter(c),
{
    let u = c as u32;
    ('a' as u32 <= u && u <= 'z' as u32) || ('A' as u32 <= u && u <= 'Z' as u32)
}

/// The split position of the bundled short-message form of `t`, when `t`
/// has it.
fn short_split_of(t: &String) -> (r: Option<usize>)
    ensures
        match r {
            Some(i) => short_msg_split(t@) == i as int && 1 <= i as int && (i as int)
                < t@.len(),
            None => short_msg_split(t@) == -1,
        },
{
    let s = t.as_str();
    let n = s.unicode_len();
    if n == 0 || s.get_char(0) != '-' {
        return None;
    }
    let mut j: usize = 1;
    let mut best: Option<usize> = None;
    while j < n && is_letter(s.get_char(j))
        invariant
            1 <= j <= n,
            s@ == t@,
            n == t@.len(),
            t@[0] == '-',
            short_scan(t@, 1, -1) == short_scan(
                t@,
                j as int,
                match best {
                    Some(b) => b as int,
                    None => -1,
                },
            ),
            match best {
                Some(b) => 1 <= b < j,
                None => true,
            },
        decreases n - j,
    {
        if s.get_char(j) == 'm' {
            best = Some(j);
        }
        j = j + 1;
    }
    best
}

/// Whether `t` matches the long message form `--message` or
/// `--message=<text>`.
fn is_long_message(t: &String) -> (r: bool)
    ensures
        r == is_long_msg(t@),
{
    let s = t.as_str();
    let pat = "--message";
    proof {
        reveal_strlit("--message");
    }
    let n = s.unicode_len();
    if n < 9 {
        return false;
    }
    let mut k: usize = 0;
    while k < 9
        invariant
            0 <= k <= 9,
            s@ == t@,
            pat@ == "--message"@,
            pat@.len() == 9,
            9 <= n == t@.len(),
            forall|j: int| 0 <= j < k ==> t@[j] == "--message"@[j],
        decreases 9 - k,
    {
        if s.get_char(k) != pat.get_char(k) {
            proof {
                assert(t@.subrange(0, 9)[k as int] == t@[k as int]);
            }
            return false;
        }
        k = k + 1;
    }
    proof {
        assert(t@.subrange(0, 9) =~= "--message"@);
    }
    if n == 9 {
        true
    } else {
        s.get_char(9) == '='
    }
}

/// Filter a raw argument list: drop the message-supplying flags and the
/// message text they carry, keep every other token in its original relative
/// order, and keep the non-message letters of a short-flag bundle as a flag
/// of their own.
pub fn filter(args: &Vec<String>) -> (out: Vec<String>)
    ensures
        out.deep_view() == filter_spec(args.deep_view()),
{
    let ghost all = args.deep_view();
    let mut out: Vec<String> = Vec::new();
    let mut skip_next = false;
    let mut i: usize = 0;
    proof {
        assert(all.subrange(0, all.len() as int) =~= all);
        assert(out.deep_view() =~= Seq::<Seq<char>>::empty());
    }
    while i < args.len()
        invariant
            i <= args@.len(),
            all == args.deep_view(),
            filter_spec(all) == out.deep_view() + filter_rec(
                all.subrange(i as int, all.len() as int),
                skip_next,
            ),
        decreases args@.len() - i,
    {
        let arg = &args[i];
        let ghost rest = all.subrange(i as int, all.len() as int);
        let ghost rest_next = all.subrange(i as int + 1, all.len() as int);
        proof {
            assert(rest.first() == all[i as int]);
            assert(all[i as int] == arg@);
            assert(rest.drop_first() =~= rest_next);
        }
        if skip_next {
            skip_next = false;
            i = i + 1;
            continue ;
        }
        let ghost prev = out.deep_view();
        let short = short_split_of(arg);
        match short {
            Some(split) => {
                proof {
                    assert(is_short_msg(arg@));
                }
                if split > 1 {
                    let bundle = arg.as_str().substring_char(0, split).to_owned();
                    out.push(bundle);
                    proof {
                        assert(out.deep_view() =~= prev + seq![arg@.subrange(0, split as int)]);
                        assert(emitted(arg@) == seq![arg@.subrange(0, split as int)]);
                    }
                } else {
                    proof {
                        assert(emitted(arg@) =~= Seq::<Seq<char>>::empty());
                    }
                }
                let n_arg = arg.as_str().unicode_len();
                skip_next = split + 1 == n_arg;
                proof {
                    assert(consumes_next(arg@) == skip_next);
                    assert(out.deep_view() + filter_rec(rest_next, skip_next) =~= prev + (emitted(
                        arg@,
                    ) + filter_rec(rest_next, skip_next)));
                }
            },
            None => {
                if is_long_message(arg) {
                    skip_next = arg.as_str().unicode_len() == 9;
                    proof {
                        assert(emitted(arg@) =~= Seq::<Seq<char>>::empty());
                        assert(consumes_next(arg@) == skip_next);
                    }
                } else {
                    out.push(arg.clone());
                    skip_next = false;
                    proof {
                        assert(out.deep_view() =~= prev + seq![arg@]);
                        assert(emitted(arg@) == seq![arg@]);
                        assert(!consumes_next(arg@));
                        assert(out.deep_view() + filter_rec(rest_next, false) =~= prev + (emitted(
                            arg@,
                        ) + filter_rec(rest_next, false)));
                    }
                }
            },
        }
        i = i + 1;
    }
    proof {
        assert(all.subrange(i as int, all.len() as int) =~= Seq::empty());
        assert(out.deep_view() =~= filter_spec(all));
    }
    out
}

/// Whether the argument list holds the given token.
fn contains_token(args: &Vec<String>, tok: &str) -> (r: bool)
    ensures
        r == args.deep_view().contains(tok@),
{
    let tok_s: String = tok.to_owned();
    let mut i: usize = 0;
    while i < args.len()
        invariant
            i <= args@.len(),
            tok_s@ == tok@,
            forall|j: int| 0 <= j < i ==> args.deep_view()[j] != tok@,
        decreases args@.len() - i,
    {
        if args[i].eq(&tok_s) {
            proof {
                assert(args.deep_view()[i as int] == tok@);
            }
            return true;
        }
        i = i + 1;
    }
    proof {
        assert forall|j: int| 0 <= j < args.deep_view().len() implies args.deep_view()[j]
            != tok@ by {}
    }
    false
}

/// Whether the raw arguments call for bypassing the interactive builder:
/// an amend run is handed to the version-control tool unchanged.
pub fn wants_bypass(args: &Vec<String>) -> (r: bool)
    ensures
        r == args.deep_view().contains("--amend"@),
{
    contains_token(args, "--amend")
}

/// Whether the filtered arguments allow committing with a clean staging
/// area.
pub fn allows_empty(args: &Vec<String>) -> (r: bool)
    ensures
        r == args.deep_view().contains("--allow-empty"@),
{
    contains_token(args, "--allow-empty")
}

/// Whether the filtered arguments open with the retry marker token.
pub fn wants_retry(args: &Vec<String>) -> (r: bool)
    ensures
        r == (args.deep_view().len() > 0 && args.deep_view()[0] == "--retry"@),
{
    if args.len() == 0 {
        return false;
    }
    let tok_s: String = "--retry".to_owned();
    args[0].eq(&tok_s)
}

/// Filtering distributes over concatenation: the output for `a + b` is the
/// output for `a` followed by the output for `b` started in the skip state
/// that `a` leaves behind.
pub proof fn lemma_filter_append(a: Seq<Seq<char>>, b: Seq<Seq<char>>, skip: bool)
    ensures
        filter_rec(a + b, skip) == filter_rec(a, skip) + filter_rec(b, end_skip(a, skip)),
    decreases a.len(),
{
    if a.len() == 0 {
        assert(a + b =~= b);
        assert(filter_rec(a, skip) + filter_rec(b, end_skip(a, skip)) =~= filter_rec(b, skip));
    } else {
        assert((a + b).len() > 0);
        assert((a + b).first() == a.first());
        assert((a + b).drop_first() =~= a.drop_first() + b);
        if skip {
            lemma_filter_append(a.drop_first(), b, false);
        } else {
            let s2 = consumes_next(a.first());
            lemma_filter_append(a.drop_first(), b, s2);
            assert(emitted(a.first()) + (filter_rec(a.drop_first(), s2) + filter_rec(
                b,
                end_skip(a.drop_first(), s2),
            )) =~= (emitted(a.first()) + filter_rec(a.drop_first(), s2)) + filter_rec(
                b,
                end_skip(a.drop_first(), s2),
            ));
        }
    }
}

/// How the token `-am` is classified: a short-message bundle split after
/// `-a`, whose message comes as the next token.
proof fn lemma_dash_am_class()
    ensures
        short_msg_split("-am"@) == 2,
        is_short_msg("-am"@),
        emitted("-am"@) == seq!["-a"@],
        consumes_next("-am"@),
{
    reveal_strlit("-am");
    reveal_strlit("-a");
    let t = "-am"@;
    assert(t.len() == 3);
    assert(t[0] == '-' && t[1] == 'a' && t[2] == 'm');
    assert(short_scan(t, 3, 2) == 2);
    assert(short_scan(t, 2, -1) == 2);
    assert(short_scan(t, 1, -1) == 2);
    assert(t.subrange(0, 2) =~= "-a"@);
    assert(emitted(t) =~= seq!["-a"@]);
}

/// How the bare token `--message` is classified: a long message flag whose
/// message comes as the next token.
proof fn lemma_long_bare_class()
    ensures
        is_long_msg("--message"@),
        !is_short_msg("--message"@),
        emitted("--message"@) == Seq::<Seq<char>>::empty(),
        consumes_next("--message"@),
{
    reveal_strlit("--message");
    let t = "--message"@;
    assert(t.len() == 9);
    assert(t.subrange(0, 9) =~= t);
    assert(t[1] == '-');
    assert(!is_flag_letter('-'));
    assert(short_scan(t, 1, -1) == -1);
    assert(emitted(t) =~= Seq::<Seq<char>>::empty());
}

/// How a token `--message=<text>` is classified: a long message flag whose
/// message is attached, so no following token is skipped.
proof fn lemma_long_eq_class(text: Seq<char>)
    ensures
        is_long_msg("--message="@ + text),
        !is_short_msg("--message="@ + text),
        emitted("--message="@ + text) == Seq::<Seq<char>>::empty(),
        !consumes_next("--message="@ + text),
{
    reveal_strlit("--message=");
    reveal_strlit("--message");
    let t = "--message="@ + text;
    assert("--message="@.len() == 10);
    assert(t.len() >= 10);
    assert(t.subrange(0, 9) =~= "--message"@);
    assert(t[9] == '=');
    assert(t[1] == '-');
    assert(!is_flag_letter('-'));
    assert(short_scan(t, 1, -1) == -1);
    assert(emitted(t) =~= Seq::<Seq<char>>::empty());
}

/// For every argument list in which the bundled short flag `-am` is followed
/// by a message token, and the preceding arguments leave no pending skip,
/// filtering emits `-a` in the flag's position and drops both the `m` and
/// the message token, leaving everything else filtered as it stands.
pub proof fn lemma_short_bundled_flag(pre: Seq<Seq<char>>, msg: Seq<char>, suf: Seq<Seq<char>>)
    requires
        !end_skip(pre, false),
    ensures
        filter_spec(pre + seq!["-am"@, msg] + suf) == filter_spec(pre) + seq!["-a"@]
            + filter_spec(suf),
{
    lemma_dash_am_class();
    let mid = seq!["-am"@, msg] + suf;
    assert(pre + seq!["-am"@, msg] + suf =~= pre + mid);
    lemma_filter_append(pre, mid, false);
    assert(mid.first() == "-am"@);
    assert(mid.drop_first() =~= seq![msg] + suf);
    assert((seq![msg] + suf).drop_first() =~= suf);
    assert(filter_rec(mid, false) == emitted("-am"@) + filter_rec(seq![msg] + suf, true));
    assert(filter_rec(seq![msg] + suf, true) == filter_rec(suf, false));
    assert(filter_spec(pre) + (seq!["-a"@] + filter_spec(suf)) =~= filter_spec(pre) + seq!["-a"@]
        + filter_spec(suf));
}

/// For every argument list holding the flag `--message=<text>`, with no
/// pending skip from the preceding arguments, filtering drops exactly that
/// token and keeps every other token in its original relative order.
pub proof fn lemma_long_flag_attached(pre: Seq<Seq<char>>, text: Seq<char>, suf: Seq<Seq<char>>)
    requires
        !end_skip(pre, false),
    ensures
        filter_spec(pre + seq!["--message="@ + text] + suf) == filter_spec(pre) + filter_spec(suf),
{
    lemma_long_eq_class(text);
    let mid = seq!["--message="@ + text] + suf;
    assert(pre + seq!["--message="@ + text] + suf =~= pre + mid);
    lemma_filter_append(pre, mid, false);
    assert(mid.first() == "--message="@ + text);
    assert(mid.drop_first() =~= suf);
    assert(filter_rec(mid, false) == emitted(mid.first()) + filter_rec(suf, false));
    assert(Seq::<Seq<char>>::empty() + filter_rec(suf, false) =~= filter_rec(suf, false));
}

/// For every argument list holding the bare flag `--message` followed by a
/// message token, with no pending skip from the preceding arguments,
/// filtering drops exactly the flag and the one following token.
pub proof fn lemma_long_flag_separate(pre: Seq<Seq<char>>, msg: Seq<char>, suf: Seq<Seq<char>>)
    requires
        !end_skip(pre, false),
    ensures
        filter_spec(pre + seq!["--message"@, msg] + suf) == filter_spec(pre) + filter_spec(suf),
{
    lemma_long_bare_class();
    let mid = seq!["--message"@, msg] + suf;
    assert(pre + seq!["--message"@, msg] + suf =~= pre + mid);
    lemma_filter_append(pre, mid, false);
    assert(mid.first() == "--message"@);
    assert(mid.drop_first() =~= seq![msg] + suf);
    assert((seq![msg] + suf).drop_first() =~= suf);
    assert(filter_rec(mid, false) == emitted(mid.first()) + filter_rec(seq![msg] + suf, true));
    assert(filter_rec(seq![msg] + suf, true) == filter_rec(suf, false));
    assert(Seq::<Seq<char>>::empty() + filter_rec(suf, false) =~= filter_rec(suf, false));
}

/// Filtering a list that holds no message flag returns it unchanged — in
/// particular, re-filtering output that has no message flags left is a
/// no-op — and such a list leaves no pending skip behind.
pub proof fn lemma_already_filtered(args: Seq<Seq<char>>)
    requires
        forall|k: int|
            0 <= k < args.len() ==> !is_short_msg(#[trigger] args[k]) && !is_long_msg(args[k]),
    ensures
        filter_spec(args) == args,
        !end_skip(args, false),
    decreases args.len(),
{
    if args.len() == 0 {
        assert(filter_spec(args) =~= args);
    } else {
        assert(!is_short_msg(args[0]) && !is_long_msg(args[0]));
        assert(args.first() == args[0]);
        assert(forall|k: int|
            0 <= k < args.drop_first().len() ==> args.drop_first()[k] == args[k + 1]);
        lemma_already_filtered(args.drop_first());
        assert(filter_spec(args) =~= seq![args.first()] + args.drop_first());
        assert(seq![args.first()] + args.drop_first() =~= args);
    }
}

} // verus!
