//! The conventional-changelog commit-message builder: the fixed list of
//! commit types, the draft record the wizard fills in, the length budget of
//! the message header, and the rendering of the finished message.

use vstd::prelude::*;
use vstd::string::StrSliceExecFns;
use vstd::string::StringExecFns;

use crate::text::{
    fill_text, lower_char, remove_all, remove_pat, to_lowercase_char, trim, trim_spec, wrapped,
};

verus! {

/// One selectable commit type: its tag and a human-readable description.
pub struct CommitType {
    pub tag: &'static str,
    pub description: &'static str,
}

/// The fixed, ordered list of commit types; the first entry is the default
/// selection.
pub fn commit_types() -> (r: Vec<CommitType>)
    ensures
        r@.len() == 11,
        r@[0].tag@ == "feat"@ && r@[0].description@ == "A new feature"@,
        r@[1].tag@ == "fix"@ && r@[1].description@ == "A bug fix"@,
        r@[2].tag@ == "docs"@ && r@[2].description@ == "Documentation only changes"@,
        r@[3].tag@ == "style"@ && r@[3].description@
            == "Changes that do not affect the meaning of the code (white-space, formatting, missing semi-colons, etc)"@,
        r@[4].tag@ == "refactor"@ && r@[4].description@
            == "A code change that neither fixes a bug nor adds a feature"@,
        r@[5].tag@ == "perf"@ && r@[5].description@
            == "A code change that improves performance"@,
        r@[6].tag@ == "test"@ && r@[6].description@
            == "Adding missing tests or correcting existing tests"@,
        r@[7].tag@ == "build"@ && r@[7].description@
            == "Changes that affect the build system or external dependencies (example scopes: gulp, broccoli, npm)"@,
        r@[8].tag@ == "ci"@ && r@[8].description@
            == "Changes to our CI configuration files and scripts (example scopes: Travis, Circle, BrowserStack, SauceLabs)"@,
        r@[9].tag@ == "chore"@ && r@[9].description@
            == "Other changes that don't modify src or test files"@,
        r@[10].tag@ == "revert"@ && r@[10].description@ == "Reverts a previous commit"@,
{
    let mut r: Vec<CommitType> = Vec::new();
    r.push(CommitType { tag: "feat", description: "A new feature" });
    r.push(CommitType { tag: "fix", description: "A bug fix" });
    r.push(CommitType { tag: "docs", description: "Documentation only changes" });
    r.push(
        CommitType {
            tag: "style",
            description: "Changes that do not affect the meaning of the code (white-space, formatting, missing semi-colons, etc)",
        },
    );
    r.push(
        CommitType {
            tag: "refactor",
            description: "A code change that neither fixes a bug nor adds a feature",
        },
    );
    r.push(
        CommitType { tag: "perf", description: "A code change that improves performance" },
    );
    r.push(
        CommitType {
            tag: "test",
            description: "Adding missing tests or correcting existing tests",
        },
    );
    r.push(
        CommitType {
            tag: "build",
            description: "Changes that affect the build system or external dependencies (example scopes: gulp, broccoli, npm)",
        },
    );
    r.push(
        CommitType {
            tag: "ci",
            description: "Changes to our CI configuration files and scripts (example scopes: Travis, Circle, BrowserStack, SauceLabs)",
        },
    );
    r.push(
        CommitType {
            tag: "chore",
            description: "Other changes that don't modify src or test files",
        },
    );
    r.push(CommitType { tag: "revert", description: "Reverts a previous commit" });
    r
}

/// The answers a single interactive session collects.
pub struct Draft {
    pub tag: String,
    pub scope: String,
    pub subject: String,
    pub body: String,
    pub breaking: bool,
    pub breaking_body: String,
    pub issues: String,
}

/// The mathematical content of a draft: each text field as its character
/// sequence.
pub struct DraftView {
    pub tag: Seq<char>,
    pub scope: Seq<char>,
    pub subject: Seq<char>,
    pub body: Seq<char>,
    pub breaking: bool,
    pub breaking_body: Seq<char>,
    pub issues: Seq<char>,
}

impl View for Draft {
    type V = DraftView;

    open spec fn view(&self) -> DraftView {
        DraftView {
            tag: self.tag@,
            scope: self.scope@,
            subject: self.subject@,
            body: self.body@,
            breaking: self.breaking,
            breaking_body: self.breaking_body@,
            issues: self.issues@,
        }
    }
}

/// The length of the rendered message header before the subject: the tag,
/// the `: ` separator, and, when the trimmed scope is non-empty, the scope
/// with its parentheses.
pub open spec fn header_len_spec(tag: Seq<char>, scope: Seq<char>) -> int {
    tag.len() + 2 + if trim_spec(scope).len() > 0 {
        trim_spec(scope).len() + 2
    } else {
        0
    } as int
}

/// The header length of a draft.
pub fn header_len(data: &Draft) -> (n: usize)
    requires
        data.tag@.len() + data.scope@.len() + 4 <= usize::MAX,
    ensures
        n == header_len_spec(data.tag@, data.scope@),
{
    proof {
        crate::text::lemma_trim_len(data.scope@);
    }
    let tl = data.tag.as_str().unicode_len();
    let sc = trim(data.scope.as_str());
    let scl = sc.as_str().unicode_len();
    if scl > 0 {
        tl + 2 + scl + 2
    } else {
        tl + 2
    }
}

/// How long a subject the header of a draft leaves room for, out of the 100
/// character budget of the whole header.
pub fn max_summary_len(data: &Draft) -> (n: usize)
    requires
        data.tag@.len() + data.scope@.len() + 4 <= usize::MAX,
        header_len_spec(data.tag@, data.scope@) <= 100,
    ensures
        n == 100 - header_len_spec(data.tag@, data.scope@),
{
    100 - header_len(data)
}

/// The subject with its first character lower-cased.
pub open spec fn lower_first_spec(s: Seq<char>) -> Seq<char> {
    if s.len() == 0 {
        s
    } else {
        lower_char(s[0]) + s.drop_first()
    }
}

/// The sequence with its trailing `.` characters removed.
pub open spec fn strip_dots_spec(s: Seq<char>) -> Seq<char>
    decreases s.len(),
{
    if s.len() > 0 && s.last() == '.' {
        strip_dots_spec(s.drop_last())
    } else {
        s
    }
}

/// What subject filtering produces: the first character lower-cased
/// (Unicode-aware), then every trailing `.` removed.
pub open spec fn filter_subject_spec(s: Seq<char>) -> Seq<char> {
    strip_dots_spec(lower_first_spec(s))
}

/// Filter a subject for the message header: lower-case its first character
/// and strip its trailing `.` characters.
pub fn filter_subject(subject: &String) -> (r: String)
    ensures
        r@ == filter_subject_spec(subject@),
{
    let s = subject.as_str();
    let n = s.unicode_len();
    let mut t: String;
    if n == 0 {
        t = String::new();
        proof {
            assert(t@ =~= lower_first_spec(subject@));
        }
    } else {
        t = to_lowercase_char(s.get_char(0));
        t.append(s.substring_char(1, n));
        proof {
            assert(s@.subrange(1, n as int) =~= subject@.drop_first());
        }
    }
    let tl = t.as_str().unicode_len();
    let mut b: usize = tl;
    proof {
        assert(t@.subrange(0, tl as int) =~= t@);
    }
    while b > 0 && t.as_str().get_char(b - 1) == '.'
        invariant
            b <= tl,
            tl == t@.len(),
            t@ == lower_first_spec(subject@),
            strip_dots_spec(t@) == strip_dots_spec(t@.subrange(0, b as int)),
        decreases b,
    {
        proof {
            let part = t@.subrange(0, b as int);
            assert(part.last() == t@[b - 1]);
            assert(part.drop_last() =~= t@.subrange(0, b as int - 1));
        }
        b = b - 1;
    }
    proof {
        let part = t@.subrange(0, b as int);
        if b > 0 {
            assert(part.last() == t@[b - 1]);
        }
        assert(strip_dots_spec(part) == part);
    }
    t.as_str().substring_char(0, b).to_owned()
}

/// The rendered commit message of a draft: the header, then, each preceded
/// by a blank line when present, the wrapped body, the breaking-change
/// section with the label prepended once, and the issue references.
pub open spec fn message_spec(d: DraftView) -> Seq<char> {
    d.tag + (if d.scope.len() > 0 {
        "("@ + d.scope + ")"@
    } else {
        Seq::<char>::empty()
    }) + ": "@ + filter_subject_spec(d.subject) + (if d.body.len() > 0 {
        "\n\n"@ + wrapped(d.body, 100)
    } else {
        Seq::<char>::empty()
    }) + (if d.breaking {
        "\n\n"@ + "BREAKING CHANGE: "@ + remove_pat(d.breaking_body, "BREAKING CHANGE: "@)
    } else {
        Seq::<char>::empty()
    }) + (if d.issues.len() > 0 {
        "\n\n"@ + d.issues
    } else {
        Seq::<char>::empty()
    })
}

/// Render the final commit message from a completed draft.
pub fn create_message(data: &Draft) -> (msg: String)
    ensures
        msg@ == message_spec(data@),
{
    let mut msg = String::new();
    msg.append(data.tag.as_str());
    if !data.scope.as_str().is_empty() {
        msg.append("(");
        msg.append(data.scope.as_str());
        msg.append(")");
    }
    msg.append(": ");
    let subj = filter_subject(&data.subject);
    msg.append(subj.as_str());
    if !data.body.as_str().is_empty() {
        msg.append("\n\n");
        let w = fill_text(data.body.as_str(), 100);
        msg.append(w.as_str());
    }
    if data.breaking {
        msg.append("\n\n");
        msg.append("BREAKING CHANGE: ");
        proof {
            reveal_strlit("BREAKING CHANGE: ");
        }
        let stripped = remove_all(data.breaking_body.as_str(), "BREAKING CHANGE: ");
        msg.append(stripped.as_str());
    }
    if !data.issues.as_str().is_empty() {
        msg.append("\n\n");
        msg.append(data.issues.as_str());
    }
    proof {
        assert(msg@ =~= message_spec(data@));
    }
    msg
}

/// Where the wizard stands in its fixed sequence of questions.
#[derive(Clone, Copy, PartialEq, Eq, Structural, Debug)]
pub enum Stage {
    /// Choose the commit type from the fixed list.
    ChooseType,
    /// Ask for the optional scope.
    AskScope,
    /// Ask for the subject; repeats until the subject is non-empty and fits
    /// the header budget.
    AskSubject,
    /// Ask for the optional body.
    AskBody,
    /// Ask whether the change is breaking.
    ConfirmBreaking,
    /// A breaking change needs a body; repeats until one is given.
    AskBodyForBreaking,
    /// Describe the breaking change itself.
    AskBreakingBody,
    /// Ask whether the change affects open issues.
    ConfirmIssues,
    /// A change closing issues needs a body; asked once.
    AskBodyForIssues,
    /// Ask for the issue references.
    AskIssues,
    /// All questions answered; the draft may be rendered.
    Complete,
}

/// The stages at which the wizard expects free text.
pub open spec fn is_text_stage(s: Stage) -> bool {
    s is AskScope || s is AskSubject || s is AskBody || s is AskBodyForBreaking
        || s is AskBreakingBody || s is AskBodyForIssues || s is AskIssues
}

/// The stages at which the wizard expects a yes/no answer.
pub open spec fn is_confirm_stage(s: Stage) -> bool {
    s is ConfirmBreaking || s is ConfirmIssues
}

/// The stages a wizard can only reach with a validated subject in its draft.
pub open spec fn subject_fixed(s: Stage) -> bool {
    s is AskBody || s is ConfirmBreaking || s is AskBodyForBreaking || s is AskBreakingBody
        || s is ConfirmIssues || s is AskBodyForIssues || s is AskIssues || s is Complete
}

/// The stages a wizard can only reach with the breaking flag settled.
pub open spec fn breaking_fixed(s: Stage) -> bool {
    s is AskBodyForBreaking || s is AskBreakingBody || s is ConfirmIssues || s is AskBodyForIssues
        || s is AskIssues || s is Complete
}

/// The interactive wizard: the current stage, the draft filled in so far,
/// and the length of the last rejected subject attempt, kept for the
/// re-prompt.
pub struct Wizard {
    pub stage: Stage,
    pub draft: Draft,
    pub last_subject_len: usize,
}

impl Wizard {
    /// What always holds of a wizard that started empty: a validated subject
    /// stays within the header budget, a breaking change carries a body once
    /// its body question is past, and the one-time issue body question only
    /// arises with no body and no breaking description at hand.
    pub open spec fn wf(self) -> bool {
        &&& (subject_fixed(self.stage) ==> self.draft@.subject.len() > 0 && header_len_spec(
            self.draft@.tag,
            self.draft@.scope,
        ) + self.draft@.subject.len() <= 100)
        &&& (breaking_fixed(self.stage) && self.draft@.breaking ==> (self.stage
            is AskBodyForBreaking || self.draft@.body.len() > 0))
        &&& (self.stage is AskBodyForIssues ==> self.draft@.body.len() == 0
            && self.draft@.breaking_body.len() == 0)
    }

    /// The draft of a freshly started wizard: everything empty, nothing
    /// breaking.
    pub open spec fn empty_draft() -> DraftView {
        DraftView {
            tag: Seq::<char>::empty(),
            scope: Seq::<char>::empty(),
            subject: Seq::<char>::empty(),
            body: Seq::<char>::empty(),
            breaking: false,
            breaking_body: Seq::<char>::empty(),
            issues: Seq::<char>::empty(),
        }
    }

    /// Start a session at the commit-type question with an empty draft.
    pub fn new() -> (w: Wizard)
        ensures
            w.stage is ChooseType,
            w.draft@ == Self::empty_draft(),
            w.last_subject_len == 0,
            w.wf(),
    {
        Wizard {
            stage: Stage::ChooseType,
            draft: Draft {
                tag: String::new(),
                scope: String::new(),
                subject: String::new(),
                body: String::new(),
                breaking: false,
                breaking_body: String::new(),
                issues: String::new(),
            },
            last_subject_len: 0,
        }
    }

    /// How long a subject the current draft leaves room for; zero when the
    /// header alone already exceeds its budget.
    pub fn subject_limit(&self) -> (n: usize)
        ensures
            n == if header_len_spec(self.draft@.tag, self.draft@.scope) <= 100 {
                100 - header_len_spec(self.draft@.tag, self.draft@.scope)
            } else {
                0
            },
    {
        proof {
            crate::text::lemma_trim_len(self.draft.scope@);
        }
        let tl = self.draft.tag.as_str().unicode_len();
        let sc = trim(self.draft.scope.as_str());
        let scl = sc.as_str().unicode_len();
        let header: u128 = if scl > 0 {
            tl as u128 + 4 + scl as u128
        } else {
            tl as u128 + 2
        };
        if header <= 100 {
            (100 - header) as usize
        } else {
            0
        }
    }

    /// Answer the commit-type question. `None` is a user abort: the wizard
    /// is left unchanged and the session fails.
    pub fn select_type(&mut self, selection: Option<usize>, types: &Vec<CommitType>) -> (r: Result<
        (),
        crate::adapters::Error,
    >)
        requires
            old(self).stage is ChooseType,
            selection matches Some(i) ==> i < types@.len(),
        ensures
            match selection {
                None => {
                    &&& *final(self) == *old(self)
                    &&& r matches Err(e) && e matches crate::adapters::Error::UserError(m) && m@
                        == "User quit, aborting."@
                },
                Some(i) => {
                    &&& r is Ok
                    &&& final(self).stage is AskScope
                    &&& final(self).draft@ == (DraftView {
                        tag: types@[i as int].tag@,
                        ..old(self).draft@
                    })
                    &&& final(self).last_subject_len == old(self).last_subject_len
                },
            },
            old(self).wf() ==> final(self).wf(),
    {
        match selection {
            None => Err(crate::adapters::Error::UserError("User quit, aborting.")),
            Some(i) => {
                self.draft.tag = types[i].tag.to_owned();
                self.stage = Stage::AskScope;
                Ok(())
            },
        }
    }

    /// Answer a free-text question. The input is trimmed; at the subject
    /// question the wizard keeps asking until the trimmed input is non-empty
    /// and fits the header budget, and at the breaking-body question until
    /// it is non-empty.
    pub fn text(&mut self, input: String)
        requires
            is_text_stage(old(self).stage),
        ensures
            text_transition(*old(self), input@, *final(self)),
            old(self).wf() ==> final(self).wf(),
    {
        let t = trim(input.as_str());
        match self.stage {
            Stage::AskScope => {
                self.draft.scope = t;
                self.stage = Stage::AskSubject;
            },
            Stage::AskSubject => {
                proof {
                    crate::text::lemma_trim_len(self.draft.scope@);
                }
                let sl = t.as_str().unicode_len();
                let tl = self.draft.tag.as_str().unicode_len();
                let sc = trim(self.draft.scope.as_str());
                let scl = sc.as_str().unicode_len();
                let header: u128 = if scl > 0 {
                    tl as u128 + 4 + scl as u128
                } else {
                    tl as u128 + 2
                };
                if sl > 0 && sl as u128 + header <= 100 {
                    self.draft.subject = t;
                    self.last_subject_len = sl;
                    self.stage = Stage::AskBody;
                } else {
                    self.last_subject_len = sl;
                }
            },
            Stage::AskBody => {
                self.draft.body = t;
                self.stage = Stage::ConfirmBreaking;
            },
            Stage::AskBodyForBreaking => {
                let empty = t.as_str().is_empty();
                self.draft.body = t;
                if !empty {
                    self.stage = Stage::AskBreakingBody;
                }
            },
            Stage::AskBreakingBody => {
                self.draft.breaking_body = t;
                self.stage = Stage::ConfirmIssues;
            },
            Stage::AskBodyForIssues => {
                self.draft.body = t;
                self.stage = Stage::AskIssues;
            },
            Stage::AskIssues => {
                self.draft.issues = t;
                self.stage = Stage::Complete;
            },
            _ => {
                proof {
                    assert(false);
                }
            },
        }
    }

    /// Answer a yes/no question: whether the change is breaking, or whether
    /// it affects open issues.
    pub fn confirm(&mut self, answer: bool)
        requires
            is_confirm_stage(old(self).stage),
        ensures
            confirm_transition(*old(self), answer, *final(self)),
            old(self).wf() ==> final(self).wf(),
    {
        match self.stage {
            Stage::ConfirmBreaking => {
                self.draft.breaking = answer;
                if answer {
                    if self.draft.body.as_str().is_empty() {
                        self.stage = Stage::AskBodyForBreaking;
                    } else {
                        self.stage = Stage::AskBreakingBody;
                    }
                } else {
                    self.stage = Stage::ConfirmIssues;
                }
            },
            Stage::ConfirmIssues => {
                if answer {
                    if self.draft.body.as_str().is_empty() && self.draft.breaking_body.as_str()
                        .is_empty() {
                        self.stage = Stage::AskBodyForIssues;
                    } else {
                        self.stage = Stage::AskIssues;
                    }
                } else {
                    self.stage = Stage::Complete;
                }
            },
            _ => {
                proof {
                    assert(false);
                }
            },
        }
    }

    /// Render the finished message once every question is answered.
    pub fn finish(&self) -> (msg: String)
        requires
            self.stage is Complete,
        ensures
            msg@ == message_spec(self.draft@),
    {
        create_message(&self.draft)
    }
}

/// How one free-text answer moves the wizard on: which field the trimmed
/// input lands in, which stage follows, and when the same question repeats.
pub open spec fn text_transition(pre: Wizard, input: Seq<char>, post: Wizard) -> bool {
    let t = trim_spec(input);
    match pre.stage {
        Stage::AskScope => {
            &&& post.draft@ == (DraftView { scope: t, ..pre.draft@ })
            &&& post.stage is AskSubject
            &&& post.last_subject_len == pre.last_subject_len
        },
        Stage::AskSubject => {
            if t.len() > 0 && header_len_spec(pre.draft@.tag, pre.draft@.scope) + t.len() <= 100 {
                &&& post.draft@ == (DraftView { subject: t, ..pre.draft@ })
                &&& post.stage is AskBody
                &&& post.last_subject_len == t.len()
            } else {
                &&& post.draft@ == pre.draft@
                &&& post.stage is AskSubject
                &&& post.last_subject_len == t.len()
            }
        },
        Stage::AskBody => {
            &&& post.draft@ == (DraftView { body: t, ..pre.draft@ })
            &&& post.stage is ConfirmBreaking
            &&& post.last_subject_len == pre.last_subject_len
        },
        Stage::AskBodyForBreaking => {
            &&& post.draft@ == (DraftView { body: t, ..pre.draft@ })
            &&& post.stage == if t.len() > 0 {
                Stage::AskBreakingBody
            } else {
                Stage::AskBodyForBreaking
            }
            &&& post.last_subject_len == pre.last_subject_len
        },
        Stage::AskBreakingBody => {
            &&& post.draft@ == (DraftView { breaking_body: t, ..pre.draft@ })
            &&& post.stage is ConfirmIssues
            &&& post.last_subject_len == pre.last_subject_len
        },
        Stage::AskBodyForIssues => {
            &&& post.draft@ == (DraftView { body: t, ..pre.draft@ })
            &&& post.stage is AskIssues
            &&& post.last_subject_len == pre.last_subject_len
        },
        Stage::AskIssues => {
            &&& post.draft@ == (DraftView { issues: t, ..pre.draft@ })
            &&& post.stage is Complete
            &&& post.last_subject_len == pre.last_subject_len
        },
        _ => false,
    }
}

/// How a yes/no answer moves the wizard on: a breaking change without a body
/// goes to the required-body question, and issue references without any body
/// at hand trigger the one-time body question.
pub open spec fn confirm_transition(pre: Wizard, answer: bool, post: Wizard) -> bool {
    match pre.stage {
        Stage::ConfirmBreaking => {
            &&& post.draft@ == (DraftView { breaking: answer, ..pre.draft@ })
            &&& post.stage == if answer && pre.draft@.body.len() == 0 {
                Stage::AskBodyForBreaking
            } else if answer {
                Stage::AskBreakingBody
            } else {
                Stage::ConfirmIssues
            }
            &&& post.last_subject_len == pre.last_subject_len
        },
        Stage::ConfirmIssues => {
            &&& post.draft@ == pre.draft@
            &&& post.stage == if answer && pre.draft@.body.len() == 0
                && pre.draft@.breaking_body.len() == 0 {
                Stage::AskBodyForIssues
            } else if answer {
                Stage::AskIssues
            } else {
                Stage::Complete
            }
            &&& post.last_subject_len == pre.last_subject_len
        },
        _ => false,
    }
}

/// The header budget is an invariant, not a suggestion: once the wizard has
/// accepted a subject — in particular in every completed draft — the header
/// length plus the subject length is at most 100.
pub proof fn lemma_header_budget(w: Wizard)
    requires
        w.wf(),
        subject_fixed(w.stage),
    ensures
        header_len_spec(w.draft@.tag, w.draft@.scope) + w.draft@.subject.len() <= 100,
        w.draft@.subject.len() > 0,
{
}

/// Rendering with a breaking change yields a single label occurrence: the
/// breaking-change section of the message is the label `BREAKING CHANGE: `
/// followed by the breaking body with its pre-existing label occurrences
/// removed, and it holds the label exactly once. Stated for the breaking
/// bodies on which the left-to-right removal leaves no occurrence behind —
/// removal can re-form the label next to a removed occurrence, as in a body
/// that reads `BREAKBREAKING CHANGE: ING CHANGE: `.
pub proof fn lemma_single_breaking_label(breaking_body: Seq<char>)
    requires
        crate::text::count_occ(
            remove_pat(breaking_body, "BREAKING CHANGE: "@),
            "BREAKING CHANGE: "@,
        ) == 0,
    ensures
        crate::text::count_occ(
            "BREAKING CHANGE: "@ + remove_pat(breaking_body, "BREAKING CHANGE: "@),
            "BREAKING CHANGE: "@,
        ) == 1,
{
    let lab = "BREAKING CHANGE: "@;
    let stripped = remove_pat(breaking_body, lab);
    reveal_strlit("BREAKING CHANGE: ");
    assert(lab.len() == 17);
    assert(lab[0] == 'B');
    assert forall|j: int| 1 <= j < lab.len() implies #[trigger] lab[j] != lab[0] by {
        assert(lab[1] == 'R' && lab[2] == 'E' && lab[3] == 'A' && lab[4] == 'K' && lab[5] == 'I'
            && lab[6] == 'N' && lab[7] == 'G' && lab[8] == ' ' && lab[9] == 'C' && lab[10] == 'H'
            && lab[11] == 'A' && lab[12] == 'N' && lab[13] == 'G' && lab[14] == 'E' && lab[15]
            == ':' && lab[16] == ' ');
    }
    crate::text::lemma_count_occ_prepend(stripped, lab);
}

/// In particular, a breaking body that never holds the label at all passes
/// through removal unchanged, and its rendered section holds the label
/// exactly once.
pub proof fn lemma_single_breaking_label_clean_body(breaking_body: Seq<char>)
    requires
        crate::text::count_occ(breaking_body, "BREAKING CHANGE: "@) == 0,
    ensures
        remove_pat(breaking_body, "BREAKING CHANGE: "@) == breaking_body,
        crate::text::count_occ(
            "BREAKING CHANGE: "@ + breaking_body,
            "BREAKING CHANGE: "@,
        ) == 1,
{
    reveal_strlit("BREAKING CHANGE: ");
    assert("BREAKING CHANGE: "@.len() == 17);
    crate::text::lemma_remove_pat_absent(breaking_body, "BREAKING CHANGE: "@);
    lemma_single_breaking_label(breaking_body);
}

/// A completed breaking-change draft always carries a body.
pub proof fn lemma_breaking_needs_body(w: Wizard)
    requires
        w.wf(),
        w.stage is Complete,
        w.draft@.breaking,
    ensures
        w.draft@.body.len() > 0,
{
}

} // verus!
