//! The commit grammar: `verb[:scope] words... [-flag value]...`.
use vstd::prelude::*;
use vstd::string::StringExecFns;
use crate::text::{chars_between, chars_of, push_char, string_of};
use crate::bridge::{fresh_id, is_random_uuid, now_utc};
use crate::types::{pillar_named, trailer_views, opt_text, Commit, CommitView, Pillar, Timestamp, Trailer};

verus! {

/// Unicode `White_Space`: the characters that separate words of a line.
pub open spec fn is_space(c: char) -> bool {
    let u: int = c as int;
    ||| 0x9 <= u <= 0xd
    ||| u == 0x20
    ||| u == 0x85
    ||| u == 0xa0
    ||| u == 0x1680
    ||| 0x2000 <= u <= 0x200a
    ||| u == 0x2028
    ||| u == 0x2029
    ||| u == 0x202f
    ||| u == 0x205f
    ||| u == 0x3000
}

/// Scanning `s` left to right: the words completed so far, and the word
/// being read.
pub open spec fn scan_words(s: Seq<char>) -> (Seq<Seq<char>>, Seq<char>)
    decreases s.len(),
{
    if s.len() == 0 {
        (seq![], seq![])
    } else {
        let (done, cur) = scan_words(s.drop_last());
        if is_space(s.last()) {
            if cur.len() > 0 {
                (done.push(cur), seq![])
            } else {
                (done, cur)
            }
        } else {
            (done, cur.push(s.last()))
        }
    }
}

/// The maximal runs of non-space characters of `s`, in order.
pub open spec fn words(s: Seq<char>) -> Seq<Seq<char>> {
    let (done, cur) = scan_words(s);
    if cur.len() > 0 {
        done.push(cur)
    } else {
        done
    }
}

/// `i` is the position of the first `:` in `t`.
pub open spec fn is_first_colon(t: Seq<char>, i: int) -> bool {
    &&& 0 <= i < t.len()
    &&& t[i] == ':'
    &&& forall|j: int| 0 <= j < i ==> t[j] != ':'
}

/// The verb of the first word: everything before its first `:`.
pub open spec fn head_verb(t: Seq<char>) -> Seq<char> {
    if exists|i: int| is_first_colon(t, i) {
        t.take(choose|i: int| is_first_colon(t, i))
    } else {
        t
    }
}

/// The scope of the first word: everything after its first `:`, if it has one.
pub open spec fn head_scope(t: Seq<char>) -> Option<Seq<char>> {
    if exists|i: int| is_first_colon(t, i) {
        Some(t.skip((choose|i: int| is_first_colon(t, i)) + 1))
    } else {
        None
    }
}

/// The trailer key that a flag letter stands for.
pub open spec fn key_for(letter: char) -> Option<Seq<char>> {
    if letter == 't' {
        Some("Mins"@)
    } else if letter == 's' {
        Some("Spent"@)
    } else if letter == 'd' {
        Some("Dist"@)
    } else if letter == 'l' {
        Some("Loc"@)
    } else if letter == 'c' {
        Some("Carbs"@)
    } else if letter == 'k' {
        Some("Kcal"@)
    } else if letter == 'p' {
        Some("Protein"@)
    } else if letter == 'w' {
        Some("With"@)
    } else if letter == 'r' {
        Some("Reps"@)
    } else {
        None
    }
}

/// The trailer key of a word that is a flag (`-` and one flag letter).
pub open spec fn flag_key(t: Seq<char>) -> Option<Seq<char>> {
    if t.len() == 2 && t[0] == '-' {
        key_for(t[1])
    } else {
        None
    }
}

/// Why a line is not a commit.
pub enum ParseFault {
    EmptyInput,
    UnknownVerb(Seq<char>),
    FlagMissingValue(Seq<char>),
}

/// What the words from position `i` on contribute: the trailers that their
/// flags set, and the words that are left for the subject.
pub open spec fn walk(toks: Seq<Seq<char>>, i: int) -> Result<
    (Seq<(Seq<char>, Seq<char>)>, Seq<Seq<char>>),
    ParseFault,
>
    decreases toks.len() - i,
{
    if i < 0 || i >= toks.len() {
        Ok((seq![], seq![]))
    } else {
        match flag_key(toks[i]) {
            Some(k) => if i + 1 < toks.len() {
                match walk(toks, i + 2) {
                    Ok((tr, sj)) => Ok((seq![(k, toks[i + 1])] + tr, sj)),
                    Err(e) => Err(e),
                }
            } else {
                Err(ParseFault::FlagMissingValue(toks[i]))
            },
            None => match walk(toks, i + 1) {
                Ok((tr, sj)) => Ok((tr, seq![toks[i]] + sj)),
                Err(e) => Err(e),
            },
        }
    }
}

/// Words joined with one space between each two.
pub open spec fn join_words(ws: Seq<Seq<char>>) -> Seq<char>
    decreases ws.len(),
{
    if ws.len() == 0 {
        seq![]
    } else if ws.len() == 1 {
        ws[0]
    } else {
        join_words(ws.drop_last()) + seq![' '] + ws.last()
    }
}

/// What a line means, once it has been accepted.
pub struct LineModel {
    pub pillar: Pillar,
    pub scope: Option<Seq<char>>,
    pub subject: Seq<char>,
    pub trailers: Seq<(Seq<char>, Seq<char>)>,
}

/// The meaning of a line already split into words.
pub open spec fn read_words(toks: Seq<Seq<char>>) -> Result<LineModel, ParseFault> {
    if toks.len() == 0 {
        Err(ParseFault::EmptyInput)
    } else {
        let verb = head_verb(toks[0]);
        match pillar_named(verb) {
            None => Err(ParseFault::UnknownVerb(verb)),
            Some(p) => match walk(toks, 1) {
                Err(e) => Err(e),
                Ok((trs, sj)) => Ok(
                    LineModel {
                        pillar: p,
                        scope: head_scope(toks[0]),
                        subject: join_words(sj),
                        trailers: trs,
                    },
                ),
            },
        }
    }
}

/// The meaning of a typed line.
pub open spec fn read_line(line: Seq<char>) -> Result<LineModel, ParseFault> {
    read_words(words(line))
}

/// The ways parsing a line can fail; each carries the offending text.
#[derive(Debug)]
pub enum ParseError {
    EmptyInput,
    UnknownVerb(String),
    FlagMissingValue(String),
}

impl View for ParseError {
    type V = ParseFault;

    open spec fn view(&self) -> ParseFault {
        match self {
            ParseError::EmptyInput => ParseFault::EmptyInput,
            ParseError::UnknownVerb(v) => ParseFault::UnknownVerb(v@),
            ParseError::FlagMissingValue(f) => ParseFault::FlagMissingValue(f@),
        }
    }
}

/// An accepted line: everything a commit takes from what was typed.
#[derive(Debug)]
pub struct ParsedLine {
    pub pillar: Pillar,
    pub scope: Option<String>,
    pub subject: String,
    pub trailers: Vec<Trailer>,
}

impl View for ParsedLine {
    type V = LineModel;

    open spec fn view(&self) -> LineModel {
        LineModel {
            pillar: self.pillar,
            scope: opt_text(self.scope),
            subject: self.subject@,
            trailers: trailer_views(self.trailers@),
        }
    }
}

/// The models of a list of character vectors.
pub open spec fn seqs_of(v: Seq<Vec<char>>) -> Seq<Seq<char>> {
    v.map_values(|x: Vec<char>| x@)
}

/// Whether `c` separates words.
pub fn is_space_char(c: char) -> (r: bool)
    ensures
        r == is_space(c),
{
    let u: u32 = c as u32;
    (0x9 <= u && u <= 0xd) || u == 0x20 || u == 0x85 || u == 0xa0 || u == 0x1680 || (0x2000 <= u
        && u <= 0x200a) || u == 0x2028 || u == 0x2029 || u == 0x202f || u == 0x205f || u == 0x3000
}

/// Splits `v` into its words.
pub fn split_words(v: &Vec<char>) -> (r: Vec<Vec<char>>)
    ensures
        seqs_of(r@) == words(v@),
{
    let mut done: Vec<Vec<char>> = Vec::new();
    let mut cur: Vec<char> = Vec::new();
    let mut i: usize = 0;
    while i < v.len()
        invariant
            i <= v@.len(),
            seqs_of(done@) == scan_words(v@.take(i as int)).0,
            cur@ == scan_words(v@.take(i as int)).1,
        decreases v@.len() - i,
    {
        let c = v[i];
        assert(v@.take(i + 1).drop_last() =~= v@.take(i as int));
        assert(v@.take(i + 1).last() == c);
        if is_space_char(c) {
            if cur.len() > 0 {
                let ghost before = done@;
                done.push(cur);
                assert(seqs_of(done@) =~= seqs_of(before).push(cur@));
                cur = Vec::new();
            }
        } else {
            cur.push(c);
        }
        i = i + 1;
    }
    assert(v@.take(v@.len() as int) =~= v@);
    if cur.len() > 0 {
        let ghost before = done@;
        done.push(cur);
        assert(seqs_of(done@) =~= seqs_of(before).push(cur@));
    }
    done
}

/// Splits the first word at its first `:` into verb and scope.
pub fn split_head(t: &Vec<char>) -> (r: (Vec<char>, Option<Vec<char>>))
    ensures
        r.0@ == head_verb(t@),
        match r.1 {
            Some(s) => head_scope(t@) == Some(s@),
            None => head_scope(t@) is None,
        },
{
    let mut i: usize = 0;
    while i < t.len()
        invariant
            i <= t@.len(),
            forall|j: int| 0 <= j < i ==> t@[j] != ':',
        decreases t@.len() - i,
    {
        if t[i] == ':' {
            assert(is_first_colon(t@, i as int));
            assert forall|k: int| is_first_colon(t@, k) implies k == i by {
                if k < i {
                } else if k > i {
                    assert(t@[i as int] == ':');
                }
            }
            let verb = chars_between(t, 0, i);
            let scope = chars_between(t, i + 1, t.len());
            assert(verb@ =~= t@.take(i as int));
            assert(scope@ =~= t@.skip(i + 1));
            return (verb, Some(scope));
        }
        i = i + 1;
    }
    assert(!exists|k: int| is_first_colon(t@, k));
    let verb = chars_between(t, 0, t.len());
    assert(verb@ =~= t@);
    (verb, None)
}

/// The trailer key for a flag letter.
fn key_of_letter(letter: char) -> (r: Option<String>)
    ensures
        match r {
            Some(k) => key_for(letter) == Some(k@),
            None => key_for(letter) is None,
        },
{
    if letter == 't' {
        Some(String::from_str("Mins"))
    } else if letter == 's' {
        Some(String::from_str("Spent"))
    } else if letter == 'd' {
        Some(String::from_str("Dist"))
    } else if letter == 'l' {
        Some(String::from_str("Loc"))
    } else if letter == 'c' {
        Some(String::from_str("Carbs"))
    } else if letter == 'k' {
        Some(String::from_str("Kcal"))
    } else if letter == 'p' {
        Some(String::from_str("Protein"))
    } else if letter == 'w' {
        Some(String::from_str("With"))
    } else if letter == 'r' {
        Some(String::from_str("Reps"))
    } else {
        None
    }
}

/// The trailer key of a word, if the word is a flag.
pub fn flag_key_of(t: &Vec<char>) -> (r: Option<String>)
    ensures
        match r {
            Some(k) => flag_key(t@) == Some(k@),
            None => flag_key(t@) is None,
        },
{
    if t.len() == 2 && t[0] == '-' {
        key_of_letter(t[1])
    } else {
        None
    }
}

/// The words joined with single spaces.
pub fn join_with_spaces(ws: &Vec<Vec<char>>) -> (r: String)
    ensures
        r@ == join_words(seqs_of(ws@)),
{
    let mut s = String::new();
    let mut i: usize = 0;
    while i < ws.len()
        invariant
            i <= ws@.len(),
            s@ == join_words(seqs_of(ws@).take(i as int)),
        decreases ws@.len() - i,
    {
        let ghost before = s@;
        let w = &ws[i];
        if i > 0 {
            push_char(&mut s, ' ');
        }
        let mut k: usize = 0;
        let ghost mid = s@;
        while k < w.len()
            invariant
                k <= w@.len(),
                w@ == ws@[i as int]@,
                s@ == mid + w@.take(k as int),
            decreases w@.len() - k,
        {
            push_char(&mut s, w[k]);
            k = k + 1;
            assert(s@ =~= mid + w@.take(k as int));
        }
        assert(w@.take(w@.len() as int) =~= w@);
        let ghost next = seqs_of(ws@).take(i + 1);
        assert(next.drop_last() =~= seqs_of(ws@).take(i as int));
        assert(next.last() == ws@[i as int]@);
        if i == 0 {
            assert(s@ =~= next[0]);
        } else {
            assert(s@ =~= join_words(next.drop_last()) + seq![' '] + next.last());
        }
        i = i + 1;
    }
    assert(seqs_of(ws@).take(ws@.len() as int) =~= seqs_of(ws@));
    s
}

/// Puts the trailers and words found at the front of a walk before what the
/// rest of the walk finds.
pub open spec fn extend(
    tr: Seq<(Seq<char>, Seq<char>)>,
    sj: Seq<Seq<char>>,
    r: Result<(Seq<(Seq<char>, Seq<char>)>, Seq<Seq<char>>), ParseFault>,
) -> Result<(Seq<(Seq<char>, Seq<char>)>, Seq<Seq<char>>), ParseFault> {
    match r {
        Ok((a, b)) => Ok((tr + a, sj + b)),
        Err(e) => Err(e),
    }
}

/// Turns a typed line such as `work:report finished the draft -t 120` into
/// what a commit takes from it, or says why the line is not a commit.
pub fn parse_line(line: &str) -> (r: Result<ParsedLine, ParseError>)
    ensures
        match r {
            Ok(p) => read_line(line@) == Ok::<LineModel, ParseFault>(p@),
            Err(e) => read_line(line@) == Err::<LineModel, ParseFault>(e@),
        },
{
    let chars = chars_of(line);
    let toks = split_words(&chars);
    let ghost tv = seqs_of(toks@);
    assert(tv == words(line@));
    if toks.len() == 0 {
        return Err(ParseError::EmptyInput);
    }
    assert(tv[0] == toks@[0]@);
    let (verb, scope) = split_head(&toks[0]);
    let pillar = match Pillar::named(&verb) {
        Some(p) => p,
        None => {
            return Err(ParseError::UnknownVerb(string_of(&verb)));
        },
    };
    let mut trailers: Vec<Trailer> = Vec::new();
    let mut subject_words: Vec<Vec<char>> = Vec::new();
    let mut i: usize = 1;
    while i < toks.len()
        invariant
            1 <= i <= toks@.len(),
            tv == seqs_of(toks@),
            tv == words(line@),
            pillar_named(head_verb(tv[0])) == Some(pillar),
            walk(tv, 1) == extend(trailer_views(trailers@), seqs_of(subject_words@), walk(tv, i as int)),
        decreases toks@.len() - i,
    {
        let ghost tr0 = trailer_views(trailers@);
        let ghost sj0 = seqs_of(subject_words@);
        assert(tv[i as int] == toks@[i as int]@);
        match flag_key_of(&toks[i]) {
            Some(key) => {
                if i + 1 < toks.len() {
                    assert(tv[i + 1] == toks@[i + 1]@);
                    let value = string_of(&toks[i + 1]);
                    trailers.push(Trailer { key, value });
                    let ghost x = (key@, value@);
                    assert(trailer_views(trailers@) =~= tr0.push(x));
                    proof {
                        match walk(tv, i + 2) {
                            Ok((a, b)) => {
                                assert(tr0.push(x) + a =~= tr0 + (seq![x] + a));
                            },
                            Err(_) => {},
                        }
                    }
                    i = i + 2;
                } else {
                    let flag = string_of(&toks[i]);
                    let ghost fault = ParseFault::FlagMissingValue(tv[i as int]);
                    assert(walk(tv, i as int) == Err::<
                        (Seq<(Seq<char>, Seq<char>)>, Seq<Seq<char>>),
                        ParseFault,
                    >(fault));
                    assert(walk(tv, 1) == Err::<
                        (Seq<(Seq<char>, Seq<char>)>, Seq<Seq<char>>),
                        ParseFault,
                    >(fault));
                    return Err(ParseError::FlagMissingValue(flag));
                }
            },
            None => {
                let ghost w = toks@[i as int]@;
                let word = chars_between(&toks[i], 0, toks[i].len());
                assert(word@ =~= w);
                subject_words.push(word);
                assert(seqs_of(subject_words@) =~= sj0.push(w));
                proof {
                    match walk(tv, i + 1) {
                        Ok((a, b)) => {
                            assert(sj0.push(w) + b =~= sj0 + (seq![w] + b));
                        },
                        Err(_) => {},
                    }
                }
                i = i + 1;
            },
        }
    }
    assert(trailer_views(trailers@) + seq![] =~= trailer_views(trailers@));
    assert(seqs_of(subject_words@) + seq![] =~= seqs_of(subject_words@));
    let subject = join_with_spaces(&subject_words);
    let scope = match scope {
        Some(s) => Some(string_of(&s)),
        None => None,
    };
    Ok(ParsedLine { pillar, scope, subject, trailers })
}

/// What a walk over the words finds: trailers whose keys are default flag
/// keys, and subject words none of which is a flag.
pub proof fn lemma_walk_parts(toks: Seq<Seq<char>>, i: int)
    ensures
        walk(toks, i) matches Ok((tr, sj)) ==> {
            &&& forall|k: int| 0 <= k < tr.len() ==> exists|c: char| key_for(c) == Some(#[trigger] tr[k].0)
            &&& forall|k: int| 0 <= k < sj.len() ==> flag_key(#[trigger] sj[k]) is None
            &&& forall|k: int|
                0 <= k < sj.len() ==> exists|j: int| 0 <= j < toks.len() && #[trigger] sj[k] == toks[j]
        },
        walk(toks, i) is Err ==> walk(toks, i)->Err_0 is FlagMissingValue,
    decreases toks.len() - i,
{
    if i < 0 || i >= toks.len() {
    } else {
        match flag_key(toks[i]) {
            Some(key) => {
                if i + 1 < toks.len() {
                    lemma_walk_parts(toks, i + 2);
                    if let Ok((tr, sj)) = walk(toks, i + 2) {
                        let all = seq![(key, toks[i + 1])] + tr;
                        assert forall|k: int| 0 <= k < all.len() implies exists|c: char|
                            key_for(c) == Some(#[trigger] all[k].0) by {
                            if k == 0 {
                                assert(key_for(toks[i][1]) == Some(all[0].0));
                            } else {
                                assert(all[k] == tr[k - 1]);
                            }
                        }
                    }
                }
            },
            None => {
                lemma_walk_parts(toks, i + 1);
                if let Ok((tr, sj)) = walk(toks, i + 1) {
                    let all = seq![toks[i]] + sj;
                    assert forall|k: int| 0 <= k < all.len() implies flag_key(
                        #[trigger] all[k],
                    ) is None by {
                        if k > 0 {
                            assert(all[k] == sj[k - 1]);
                        }
                    }
                    assert forall|k: int| 0 <= k < all.len() implies exists|j: int|
                        0 <= j < toks.len() && #[trigger] all[k] == toks[j] by {
                        if k > 0 {
                            assert(all[k] == sj[k - 1]);
                        } else {
                            assert(all[0] == toks[i]);
                        }
                    }
                }
            },
        }
    }
}

/// An accepted line is led by a pillar's name: its verb names the commit's
/// pillar. Every trailer it sets has one of the default flag keys, and no
/// flag is left among the subject's words. A line refused for its verb
/// carries a verb that names no pillar.
pub proof fn law_line_shape(line: Seq<char>)
    ensures
        read_line(line) matches Ok(m) ==> {
            &&& words(line).len() > 0
            &&& head_verb(words(line)[0]) == crate::types::pillar_name(m.pillar)
            &&& head_scope(words(line)[0]) == m.scope
            &&& forall|k: int|
                0 <= k < m.trailers.len() ==> exists|c: char| key_for(c) == Some(#[trigger] m.trailers[k].0)
        },
        read_line(line) matches Err(ParseFault::UnknownVerb(v)) ==> pillar_named(v) is None,
        read_line(line) == Err::<LineModel, ParseFault>(ParseFault::EmptyInput) <==> words(line).len() == 0,
{
    lemma_walk_parts(words(line), 1);
    if let Ok(m) = read_line(line) {
        crate::types::law_pillar_name_reads_back(m.pillar);
    }
}

/// A line that is only a pillar's name is a commit of that pillar with an
/// empty subject, no scope and no trailers.
pub proof fn law_bare_verb(p: Pillar)
    ensures
        read_line(crate::types::pillar_name(p)) == Ok::<LineModel, ParseFault>(
            LineModel { pillar: p, scope: None, subject: seq![], trailers: seq![] },
        ),
{
    let name = crate::types::pillar_name(p);
    let n1 = name.take(1);
    let n2 = name.take(2);
    let n3 = name.take(3);
    assert(n1.drop_last() =~= seq![]);
    assert(n2.drop_last() =~= n1);
    assert(n3.drop_last() =~= n2);
    assert(name.drop_last() =~= n3);
    assert(!is_space(name[0]) && !is_space(name[1]) && !is_space(name[2]) && !is_space(name[3]));
    assert(scan_words(seq![]) == (Seq::<Seq<char>>::empty(), Seq::<char>::empty()));
    assert(scan_words(n1).1 =~= n1);
    assert(scan_words(n2).1 =~= n2);
    assert(scan_words(n3).1 =~= n3);
    assert(scan_words(name).1 =~= name);
    assert(scan_words(name).0 =~= Seq::<Seq<char>>::empty());
    assert(words(name) =~= seq![name]);
    assert(!exists|i: int| is_first_colon(name, i));
    crate::types::law_pillar_name_reads_back(p);
}

/// Reading a space and then `k` characters of a word `w` after `s`: the
/// words of `s` are complete, and the word being read is what was read of `w`.
pub proof fn lemma_scan_word(s: Seq<char>, w: Seq<char>, k: int)
    requires
        0 <= k <= w.len(),
        forall|j: int| 0 <= j < w.len() ==> !is_space(#[trigger] w[j]),
    ensures
        scan_words(s + seq![' '] + w.take(k)).0 == words(s),
        scan_words(s + seq![' '] + w.take(k)).1 == w.take(k),
    decreases k,
{
    let t = s + seq![' '] + w.take(k);
    if k == 0 {
        assert(t.drop_last() =~= s);
        assert(t.last() == ' ');
        assert(is_space(' '));
    } else {
        lemma_scan_word(s, w, k - 1);
        assert(t.drop_last() =~= s + seq![' '] + w.take(k - 1));
        assert(t.last() == w[k - 1]);
        assert(w.take(k - 1).push(w[k - 1]) =~= w.take(k));
    }
}

/// The words of `s`, a space and a word `w` are those of `s`, then `w`.
pub proof fn lemma_words_append(s: Seq<char>, w: Seq<char>)
    requires
        w.len() > 0,
        forall|j: int| 0 <= j < w.len() ==> !is_space(#[trigger] w[j]),
    ensures
        words(s + seq![' '] + w) == words(s).push(w),
{
    lemma_scan_word(s, w, w.len() as int);
    assert(w.take(w.len() as int) =~= w);
}

/// Walking words that a flag and its value follow: the walk finds what it
/// found before, and then that trailer.
pub proof fn lemma_walk_flag_appended(
    toks: Seq<Seq<char>>,
    i: int,
    flag: Seq<char>,
    value: Seq<char>,
)
    requires
        1 <= i <= toks.len(),
        walk(toks, i) is Ok,
        flag_key(flag) is Some,
    ensures
        walk(toks + seq![flag, value], i) == Ok::<
            (Seq<(Seq<char>, Seq<char>)>, Seq<Seq<char>>),
            ParseFault,
        >(
            (
                walk(toks, i)->Ok_0.0.push((flag_key(flag)->Some_0, value)),
                walk(toks, i)->Ok_0.1,
            ),
        ),
    decreases toks.len() - i,
{
    let more = toks + seq![flag, value];
    let key = flag_key(flag)->Some_0;
    if i == toks.len() {
        assert(more[i] == flag);
        assert(more[i + 1] == value);
        assert(walk(more, i + 2) == Ok::<
            (Seq<(Seq<char>, Seq<char>)>, Seq<Seq<char>>),
            ParseFault,
        >((seq![], seq![])));
        assert(seq![(key, value)] + Seq::<(Seq<char>, Seq<char>)>::empty() =~= Seq::<
            (Seq<char>, Seq<char>),
        >::empty().push((key, value)));
    } else {
        assert(more[i] == toks[i]);
        match flag_key(toks[i]) {
            Some(k) => {
                assert(i + 1 < toks.len());
                assert(more[i + 1] == toks[i + 1]);
                lemma_walk_flag_appended(toks, i + 2, flag, value);
                let (tr, sj) = walk(toks, i + 2)->Ok_0;
                assert((seq![(k, toks[i + 1])] + tr).push((key, value)) =~= seq![(k, toks[i + 1])]
                    + tr.push((key, value)));
            },
            None => {
                lemma_walk_flag_appended(toks, i + 1, flag, value);
            },
        }
    }
}

/// Flags become trailers: adding a flag and a one-word value to an accepted
/// line adds that trailer at the end and leaves the pillar, the scope and the
/// subject as they were.
pub proof fn law_flag_adds_trailer(line: Seq<char>, letter: char, value: Seq<char>)
    requires
        read_line(line) is Ok,
        key_for(letter) is Some,
        value.len() > 0,
        forall|j: int| 0 <= j < value.len() ==> !is_space(#[trigger] value[j]),
    ensures
        read_line(line + seq![' ', '-', letter, ' '] + value) == Ok::<LineModel, ParseFault>(
            LineModel {
                trailers: read_line(line)->Ok_0.trailers.push((key_for(letter)->Some_0, value)),
                ..read_line(line)->Ok_0
            },
        ),
{
    let flag = seq!['-', letter];
    assert forall|j: int| 0 <= j < flag.len() implies !is_space(#[trigger] flag[j]) by {}
    lemma_words_append(line, flag);
    assert(line + seq![' '] + flag =~= line + seq![' ', '-', letter]);
    lemma_words_append(line + seq![' ', '-', letter], value);
    assert(line + seq![' ', '-', letter] + seq![' '] + value =~= line + seq![' ', '-', letter, ' ']
        + value);
    let toks = words(line);
    assert(words(line).push(flag).push(value) =~= toks + seq![flag, value]);
    lemma_walk_flag_appended(toks, 1, flag, value);
    assert((toks + seq![flag, value])[0] == toks[0]);
}

/// Walking words that a word which is not a flag follows: the walk finds
/// what it found before, and that word for the subject.
pub proof fn lemma_walk_word_appended(toks: Seq<Seq<char>>, i: int, w: Seq<char>)
    requires
        1 <= i <= toks.len(),
        walk(toks, i) is Ok,
        flag_key(w) is None,
    ensures
        walk(toks.push(w), i) == Ok::<(Seq<(Seq<char>, Seq<char>)>, Seq<Seq<char>>), ParseFault>(
            (walk(toks, i)->Ok_0.0, walk(toks, i)->Ok_0.1.push(w)),
        ),
    decreases toks.len() - i,
{
    let more = toks.push(w);
    if i == toks.len() {
        assert(more[i] == w);
        assert(seq![w] + Seq::<Seq<char>>::empty() =~= Seq::<Seq<char>>::empty().push(w));
    } else {
        assert(more[i] == toks[i]);
        match flag_key(toks[i]) {
            Some(k) => {
                assert(more[i + 1] == toks[i + 1]);
                lemma_walk_word_appended(toks, i + 2, w);
            },
            None => {
                lemma_walk_word_appended(toks, i + 1, w);
                let (tr, sj) = walk(toks, i + 1)->Ok_0;
                assert((seq![toks[i]] + sj).push(w) =~= seq![toks[i]] + sj.push(w));
            },
        }
    }
}

/// The subject is the words after the verb: adding a word that is not a flag
/// to an accepted line adds it to the end of the subject, after a space if
/// the subject had words, and leaves the rest as it was.
pub proof fn law_word_extends_subject(line: Seq<char>, w: Seq<char>)
    requires
        read_line(line) is Ok,
        w.len() > 0,
        forall|j: int| 0 <= j < w.len() ==> !is_space(#[trigger] w[j]),
        flag_key(w) is None,
    ensures
        read_line(line + seq![' '] + w) == Ok::<LineModel, ParseFault>(
            LineModel {
                subject: if read_line(line)->Ok_0.subject.len() == 0 {
                    w
                } else {
                    read_line(line)->Ok_0.subject + seq![' '] + w
                },
                ..read_line(line)->Ok_0
            },
        ),
{
    lemma_words_append(line, w);
    let toks = words(line);
    lemma_walk_word_appended(toks, 1, w);
    assert(toks.push(w)[0] == toks[0]);
    let sj = walk(toks, 1)->Ok_0.1;
    lemma_join_push(sj, w);
    lemma_walk_parts(toks, 1);
    lemma_words_nonempty(line);
    if sj.len() > 0 {
        let j = choose|j: int| 0 <= j < toks.len() && sj[0] == toks[j];
        assert(toks[j].len() > 0);
    }
}

/// Every word has at least one character.
pub proof fn lemma_words_nonempty(s: Seq<char>)
    ensures
        forall|k: int| 0 <= k < words(s).len() ==> (#[trigger] words(s)[k]).len() > 0,
{
    lemma_scan_nonempty(s);
}

/// The words a scan has completed each have at least one character.
pub proof fn lemma_scan_nonempty(s: Seq<char>)
    ensures
        forall|k: int|
            0 <= k < scan_words(s).0.len() ==> (#[trigger] scan_words(s).0[k]).len() > 0,
    decreases s.len(),
{
    if s.len() > 0 {
        lemma_scan_nonempty(s.drop_last());
        let (done, cur) = scan_words(s.drop_last());
        if is_space(s.last()) && cur.len() > 0 {
            assert forall|k: int| 0 <= k < done.push(cur).len() implies (#[trigger] done.push(
                cur,
            )[k]).len() > 0 by {
                if k < done.len() {
                    assert(done.push(cur)[k] == done[k]);
                }
            }
        }
    }
}

/// Joining one more word: it follows the others after a space.
pub proof fn lemma_join_push(ws: Seq<Seq<char>>, w: Seq<char>)
    requires
        w.len() > 0,
    ensures
        join_words(ws.push(w)) == if join_words(ws).len() == 0 && ws.len() == 0 {
            w
        } else {
            join_words(ws) + seq![' '] + w
        },
        join_words(ws).len() == 0 ==> ws.len() == 0 || ws[0].len() == 0,
{
    assert(ws.push(w).drop_last() =~= ws);
    lemma_join_empty(ws);
}

/// Joined words are empty only when there are none, or a single empty one.
pub proof fn lemma_join_empty(ws: Seq<Seq<char>>)
    ensures
        join_words(ws).len() == 0 ==> ws.len() == 0 || ws[0].len() == 0,
    decreases ws.len(),
{
    if ws.len() > 1 {
        lemma_join_empty(ws.drop_last());
    }
}

/// A printable ASCII character other than the space: `!` to `~`.
pub open spec fn is_printable(c: char) -> bool {
    0x21 <= c as int <= 0x7e
}

/// Plain text: printable ASCII words without `-` (so none is a flag), one
/// space between each two, none before the first or after the last.
pub open spec fn plain_text(t: Seq<char>) -> bool {
    &&& t.len() > 0
    &&& t[0] != ' '
    &&& t.last() != ' '
    &&& forall|i: int| 0 <= i < t.len() ==> (is_printable(#[trigger] t[i]) && t[i] != '-') || t[i] == ' '
    &&& forall|i: int| 0 <= i < t.len() - 1 ==> !(#[trigger] t[i] == ' ' && t[i + 1] == ' ')
}

/// Among ASCII characters, only the space and the controls tab, line feed,
/// vertical tab, form feed and carriage return separate words; every
/// printable character belongs to a word.
pub proof fn law_ascii_separators(c: char)
    ensures
        (c as int) < 0x80 ==> (is_space(c) <==> (c == ' ' || c == '\t' || c == '\n' || c
            == '\u{b}' || c == '\u{c}' || c == '\r')),
        is_printable(c) ==> !is_space(c),
{
}

/// The last space of `t` at or after position `i`, which holds one.
proof fn lemma_last_space(t: Seq<char>, i: int) -> (k: int)
    requires
        0 <= i < t.len(),
        t[i] == ' ',
    ensures
        i <= k < t.len(),
        t[k] == ' ',
        forall|j: int| k < j < t.len() ==> t[j] != ' ',
    decreases t.len() - i,
{
    if exists|j: int| i < j < t.len() && t[j] == ' ' {
        let j = choose|j: int| i < j < t.len() && t[j] == ' ';
        lemma_last_space(t, j)
    } else {
        i
    }
}

/// Words are split only at white space: no printable character is a
/// separator, so after a pillar's name and a space, plain text, commas and
/// all, is the subject exactly as typed, with no scope and no trailers.
pub proof fn law_plain_text_is_the_subject(p: Pillar, text: Seq<char>)
    requires
        plain_text(text),
    ensures
        read_line(crate::types::pillar_name(p) + seq![' '] + text) == Ok::<LineModel, ParseFault>(
            LineModel { pillar: p, scope: None, subject: text, trailers: seq![] },
        ),
    decreases text.len(),
{
    let name = crate::types::pillar_name(p);
    law_bare_verb(p);
    if exists|i: int| 0 <= i < text.len() && text[i] == ' ' {
        let i = choose|i: int| 0 <= i < text.len() && text[i] == ' ';
        let k = lemma_last_space(text, i);
        let t1 = text.take(k);
        let w = text.skip(k + 1);
        assert(k > 0);
        assert(k < text.len() - 1);
        assert(t1.last() == text[k - 1]);
        assert(text[k - 1] != ' ');
        assert forall|j: int| 0 <= j < t1.len() implies (is_printable(#[trigger] t1[j]) && t1[j]
            != '-') || t1[j] == ' ' by {
            assert(t1[j] == text[j]);
        }
        assert forall|j: int| 0 <= j < t1.len() - 1 implies !(#[trigger] t1[j] == ' ' && t1[j + 1]
            == ' ') by {
            assert(t1[j] == text[j] && t1[j + 1] == text[j + 1]);
        }
        law_plain_text_is_the_subject(p, t1);
        assert forall|j: int| 0 <= j < w.len() implies !is_space(#[trigger] w[j]) by {
            assert(w[j] == text[k + 1 + j]);
        }
        assert(w[0] == text[k + 1]);
        assert(w[0] != '-');
        law_word_extends_subject(name + seq![' '] + t1, w);
        assert(name + seq![' '] + t1 + seq![' '] + w =~= name + seq![' '] + text);
        assert(t1 + seq![' '] + w =~= text);
    } else {
        assert forall|j: int| 0 <= j < text.len() implies !is_space(#[trigger] text[j]) by {
            assert(text[j] != ' ');
        }
        assert(text[0] != '-');
        law_word_extends_subject(name, text);
    }
}

/// The commit made from an accepted line, with the given id and moment: no
/// body, not starred.
pub open spec fn commit_from_line(m: LineModel, id: u128, at: Timestamp) -> CommitView {
    CommitView {
        id,
        pillar: m.pillar,
        scope: m.scope,
        subject: m.subject,
        body: None,
        trailers: m.trailers,
        is_highlight: false,
        created_at: at,
    }
}

impl Commit {
    /// The commit that an accepted line makes, given its id and moment.
    pub fn compose(line: ParsedLine, id: u128, at: Timestamp) -> (c: Commit)
        ensures
            c@ == commit_from_line(line@, id, at),
    {
        Commit {
            id,
            pillar: line.pillar,
            scope: line.scope,
            subject: line.subject,
            body: None,
            trailers: line.trailers,
            is_highlight: false,
            created_at: at,
        }
    }

    /// Turns a typed line like `work:report finished the draft -t 120` into a
    /// commit with a fresh random id, stamped with the current moment; or
    /// says why the line is not a commit.
    pub fn parse(line: &str) -> (r: Result<Commit, ParseError>)
        ensures
            match r {
                Ok(c) => {
                    &&& read_line(line@) is Ok
                    &&& c@ == commit_from_line(read_line(line@)->Ok_0, c.id, c.created_at)
                    &&& is_random_uuid(c.id)
                    &&& c.created_at.valid()
                    &&& c.created_at.secs >= 0
                    &&& c.created_at.nanos < 1_000_000_000
                },
                Err(e) => read_line(line@) == Err::<LineModel, ParseFault>(e@),
            },
    {
        match parse_line(line) {
            Ok(parsed) => {
                let id = fresh_id();
                let at = now_utc();
                Ok(Commit::compose(parsed, id, at))
            },
            Err(e) => Err(e),
        }
    }
}

} // verus!
