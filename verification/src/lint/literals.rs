//! The check for repeated literals.

use vstd::prelude::*;
use crate::lint::patterns::opt_texts;
use crate::numeral::{decimal, to_decimal};
use crate::text::{join3, join6, opt_text, same_text, texts};

verus! {

/// Minimum number of diff-local occurrences of a literal before it's
/// flagged as worth hoisting into a named constant.
pub const MIN_LITERAL_REPETITIONS: usize = 3;

// ---------------------------------------------------------------
// Declared constants
// ---------------------------------------------------------------

/// The files and literals of a list.
pub open spec fn pair_views(v: Seq<(String, String)>) -> Seq<(Seq<char>, Seq<char>)> {
    Seq::new(v.len(), |i: int| (v[i].0@, v[i].1@))
}

/// The literals with the file they stand in, for the first `n` matches.
pub open spec fn noted(file: Seq<char>, literals: Seq<Option<Seq<char>>>, n: int) -> Seq<
    (Seq<char>, Seq<char>),
>
    decreases n,
{
    if n <= 0 {
        Seq::empty()
    } else {
        match literals[n - 1] {
            Some(literal) => noted(file, literals, n - 1).push((file, literal)),
            None => noted(file, literals, n - 1),
        }
    }
}

/// The declared literals after a line.
pub open spec fn with_declarations(
    declared: Seq<(Seq<char>, Seq<char>)>,
    file: Seq<char>,
    const_line: bool,
    literals: Seq<Option<Seq<char>>>,
) -> Seq<(Seq<char>, Seq<char>)> {
    if const_line {
        declared + noted(file, literals, literals.len() as int)
    } else {
        declared
    }
}

/// Record any literal declared on a `const`/`static` line so it's exempted
/// from the repeated-literal check.
pub fn collect_const_literal_declarations(
    file: &str,
    const_line: bool,
    literals: &Vec<Option<String>>,
    const_declared: &mut Vec<(String, String)>,
)
    ensures
        pair_views(final(const_declared)@) == with_declarations(
            pair_views(old(const_declared)@),
            file@,
            const_line,
            opt_texts(literals@),
        ),
{
    if !const_line {
        return;
    }
    let ghost before = pair_views(const_declared@);
    let ghost all = opt_texts(literals@);
    let mut i: usize = 0;
    assert(before + noted(file@, all, 0) =~= before);
    while i < literals.len()
        invariant
            all == opt_texts(literals@),
            i <= literals@.len(),
            pair_views(const_declared@) == before + noted(file@, all, i as int),
        decreases literals.len() - i,
    {
        let ghost so_far = const_declared@;
        assert(all[i as int] == opt_text(literals@[i as int]));
        if let Some(literal) = &literals[i] {
            const_declared.push((file.to_owned(), literal.clone()));
            assert(pair_views(const_declared@) =~= pair_views(so_far).push((file@, literal@)));
            assert(pair_views(const_declared@) =~= before + noted(file@, all, i + 1));
        }
        i += 1;
    }
}

fn is_declared(declared: &Vec<(String, String)>, file: &str, literal: &str) -> (r: bool)
    ensures
        r == pair_views(declared@).contains((file@, literal@)),
{
    let mut i: usize = 0;
    while i < declared.len()
        invariant
            i <= declared@.len(),
            forall|k: int| 0 <= k < i ==> #[trigger] pair_views(declared@)[k] != (file@, literal@),
        decreases declared.len() - i,
    {
        assert(pair_views(declared@)[i as int] == (declared@[i as int].0@, declared@[i as int].1@));
        if same_text(&declared[i].0, file) && same_text(&declared[i].1, literal) {
            return true;
        }
        i += 1;
    }
    false
}

// ---------------------------------------------------------------
// Occurrences
// ---------------------------------------------------------------

/// Where a literal occurs in the added lines of a file.
#[derive(Debug)]
pub struct LiteralSites {
    /// The file.
    pub file: String,
    /// The literal.
    pub literal: String,
    /// The lines, one for each occurrence: the text without the white space
    /// around it, and the number.
    pub sites: Vec<(String, usize)>,
}

/// Where a literal occurs, as contracts speak of it.
pub struct SitesView {
    /// The file.
    pub file: Seq<char>,
    /// The literal.
    pub literal: Seq<char>,
    /// The text and the number of the line of each occurrence.
    pub sites: Seq<(Seq<char>, usize)>,
}

/// The texts and the numbers of a list of lines.
pub open spec fn site_views(v: Seq<(String, usize)>) -> Seq<(Seq<char>, usize)> {
    Seq::new(v.len(), |i: int| (v[i].0@, v[i].1))
}

impl LiteralSites {
    /// The file, the literal and the lines.
    pub open spec fn view(&self) -> SitesView {
        SitesView {
            file: self.file@,
            literal: self.literal@,
            sites: site_views(self.sites@),
        }
    }
}

/// The occurrences of a list.
pub open spec fn sites_views(v: Seq<LiteralSites>) -> Seq<SitesView> {
    Seq::new(v.len(), |i: int| v[i]@)
}

/// The position of the occurrences of a literal in a file, from position `i`
/// on.
pub open spec fn sites_position(
    sites: Seq<SitesView>,
    file: Seq<char>,
    literal: Seq<char>,
    i: int,
) -> Option<int>
    decreases sites.len() - i,
{
    if i < 0 || i >= sites.len() {
        None
    } else if sites[i].file == file && sites[i].literal == literal {
        Some(i)
    } else {
        sites_position(sites, file, literal, i + 1)
    }
}

/// The occurrences with one more, at a line with a text and a number.
pub open spec fn with_site(
    sites: Seq<SitesView>,
    file: Seq<char>,
    literal: Seq<char>,
    site: (Seq<char>, usize),
) -> Seq<SitesView> {
    match sites_position(sites, file, literal, 0) {
        Some(i) => sites.update(
            i,
            SitesView { file, literal, sites: sites[i].sites.push(site) },
        ),
        None => sites.push(SitesView { file, literal, sites: seq![site] }),
    }
}

/// The occurrences after the first `n` matches of a line.
pub open spec fn with_sites(
    sites: Seq<SitesView>,
    file: Seq<char>,
    site: (Seq<char>, usize),
    literals: Seq<Option<Seq<char>>>,
    n: int,
) -> Seq<SitesView>
    decreases n,
{
    if n <= 0 {
        sites
    } else {
        let before = with_sites(sites, file, site, literals, n - 1);
        match literals[n - 1] {
            Some(literal) => with_site(before, file, literal, site),
            None => before,
        }
    }
}

fn add_site(
    sites: &mut Vec<LiteralSites>,
    file: &str,
    literal: &str,
    stripped: &str,
    lineno: usize,
)
    ensures
        sites_views(final(sites)@) == with_site(
            sites_views(old(sites)@),
            file@,
            literal@,
            (stripped@, lineno),
        ),
{
    let ghost before = sites_views(sites@);
    let ghost site = (stripped@, lineno);
    let mut i: usize = 0;
    while i < sites.len()
        invariant
            *sites == *old(sites),
            site == (stripped@, lineno),
            before == sites_views(sites@),
            i <= sites@.len(),
            sites_position(before, file@, literal@, 0) == sites_position(
                before,
                file@,
                literal@,
                i as int,
            ),
        decreases sites.len() - i,
    {
        assert(before[i as int] == sites@[i as int]@);
        if same_text(&sites[i].file, file) && same_text(&sites[i].literal, literal) {
            let ghost known = sites@[i as int].sites@;
            sites[i].sites.push((stripped.to_owned(), lineno));
            assert(site_views(sites@[i as int].sites@) =~= site_views(known).push(site));
            assert(sites_views(sites@) =~= with_site(before, file@, literal@, site));
            return;
        }
        i += 1;
    }
    let mut first: Vec<(String, usize)> = Vec::new();
    first.push((stripped.to_owned(), lineno));
    assert(site_views(first@) =~= seq![site]);
    sites.push(
        LiteralSites { file: file.to_owned(), literal: literal.to_owned(), sites: first },
    );
    assert(sites_views(sites@) =~= with_site(before, file@, literal@, site));
}

/// Record every literal occurrence on a non-test, non-attribute line, for
/// the repeated-literal check.
pub fn collect_literal_site(
    file: &str,
    lineno: usize,
    stripped: &str,
    literals: &Vec<Option<String>>,
    literal_sites: &mut Vec<LiteralSites>,
)
    ensures
        sites_views(final(literal_sites)@) == with_sites(
            sites_views(old(literal_sites)@),
            file@,
            (stripped@, lineno),
            opt_texts(literals@),
            literals@.len() as int,
        ),
{
    let ghost before = sites_views(literal_sites@);
    let ghost all = opt_texts(literals@);
    let mut i: usize = 0;
    while i < literals.len()
        invariant
            all == opt_texts(literals@),
            i <= literals@.len(),
            sites_views(literal_sites@) == with_sites(
                before,
                file@,
                (stripped@, lineno),
                all,
                i as int,
            ),
        decreases literals.len() - i,
    {
        assert(all[i as int] == opt_text(literals@[i as int]));
        if let Some(literal) = &literals[i] {
            add_site(literal_sites, file, literal, stripped, lineno);
        }
        i += 1;
    }
}

// ---------------------------------------------------------------
// Warnings
// ---------------------------------------------------------------

/// The numbers of the first `n` lines, separated by commas.
pub open spec fn joined_lines(sites: Seq<(Seq<char>, usize)>, n: int) -> Seq<char>
    decreases n,
{
    if n <= 0 {
        Seq::empty()
    } else if n == 1 {
        decimal(sites[0].1 as nat)
    } else {
        joined_lines(sites, n - 1) + ", "@ + decimal(sites[n - 1].1 as nat)
    }
}

fn join_lines(sites: &Vec<(String, usize)>) -> (r: String)
    ensures
        r@ == joined_lines(site_views(sites@), sites@.len() as int),
{
    let mut r = String::new();
    assert(r@ =~= Seq::<char>::empty());
    let mut i: usize = 0;
    while i < sites.len()
        invariant
            i <= sites@.len(),
            r@ == joined_lines(site_views(sites@), i as int),
        decreases sites.len() - i,
    {
        assert(site_views(sites@)[i as int].1 == sites@[i as int].1);
        let number = to_decimal(sites[i].1 as u64);
        if i == 0 {
            r = number;
        } else {
            r = join3(&r, ", ", &number);
        }
        i += 1;
    }
    r
}

/// True when a literal is to be flagged.
pub open spec fn is_repeated(site: SitesView, declared: Seq<(Seq<char>, Seq<char>)>) -> bool {
    site.sites.len() >= MIN_LITERAL_REPETITIONS && !declared.contains((site.file, site.literal))
}

/// How a repeated literal is reported.
pub open spec fn repeated_text(site: SitesView) -> Seq<char> {
    site.file + ": literal "@ + site.literal + " repeated "@ + decimal(site.sites.len()) + (
    "x at lines "@ + joined_lines(site.sites, site.sites.len() as int)
        + " without a named constant -- consider hoisting it"@)
}

/// The warnings for the first `n` literals.
pub open spec fn repeated_warnings(
    sites: Seq<SitesView>,
    declared: Seq<(Seq<char>, Seq<char>)>,
    n: int,
) -> Seq<Seq<char>>
    decreases n,
{
    if n <= 0 {
        Seq::empty()
    } else if is_repeated(sites[n - 1], declared) {
        repeated_warnings(sites, declared, n - 1).push(repeated_text(sites[n - 1]))
    } else {
        repeated_warnings(sites, declared, n - 1)
    }
}

/// Build warnings for literals repeated `MIN_LITERAL_REPETITIONS`+ times in
/// the diff without ever being hoisted into a named constant.
pub fn repeated_literal_warnings(
    literal_sites: &Vec<LiteralSites>,
    const_declared: &Vec<(String, String)>,
) -> (r: Vec<String>)
    ensures
        texts(r@) == repeated_warnings(
            sites_views(literal_sites@),
            pair_views(const_declared@),
            literal_sites@.len() as int,
        ),
{
    let ghost sites = sites_views(literal_sites@);
    let ghost declared = pair_views(const_declared@);
    let mut warnings: Vec<String> = Vec::new();
    let mut i: usize = 0;
    assert(texts(warnings@) =~= repeated_warnings(sites, declared, 0));
    while i < literal_sites.len()
        invariant
            sites == sites_views(literal_sites@),
            declared == pair_views(const_declared@),
            i <= literal_sites@.len(),
            texts(warnings@) == repeated_warnings(sites, declared, i as int),
        decreases literal_sites.len() - i,
    {
        let site = &literal_sites[i];
        let ghost before = warnings@;
        assert(sites[i as int] == site@);
        if site.sites.len() >= MIN_LITERAL_REPETITIONS && !is_declared(
            const_declared,
            &site.file,
            &site.literal,
        ) {
            let tail = join3(
                "x at lines ",
                &join_lines(&site.sites),
                " without a named constant -- consider hoisting it",
            );
            let warning = join6(
                &site.file,
                ": literal ",
                &site.literal,
                " repeated ",
                &to_decimal(site.sites.len() as u64),
                &tail,
            );
            warnings.push(warning);
            assert(texts(warnings@) =~= texts(before).push(repeated_text(site@)));
        }
        i += 1;
    }
    warnings
}

// ---------------------------------------------------------------
// Laws
// ---------------------------------------------------------------

/// True when no literal of a file is listed twice.
pub open spec fn sites_distinct(sites: Seq<SitesView>) -> bool {
    forall|i: int, j: int|
        0 <= i < j < sites.len() ==> !((#[trigger] sites[i]).file == (#[trigger] sites[j]).file
            && sites[i].literal == sites[j].literal)
}

/// The lines recorded for a literal of a file.
pub open spec fn sites_of_literal(
    sites: Seq<SitesView>,
    file: Seq<char>,
    literal: Seq<char>,
) -> Seq<(Seq<char>, usize)> {
    match sites_position(sites, file, literal, 0) {
        Some(i) => sites[i].sites,
        None => Seq::empty(),
    }
}

proof fn lemma_sites_position(
    sites: Seq<SitesView>,
    file: Seq<char>,
    literal: Seq<char>,
    i: int,
)
    requires
        0 <= i <= sites.len(),
    ensures
        match sites_position(sites, file, literal, i) {
            Some(k) => i <= k < sites.len() && sites[k].file == file && sites[k].literal == literal
                && forall|m: int|
                i <= m < k ==> !((#[trigger] sites[m]).file == file && sites[m].literal == literal),
            None => forall|m: int|
                i <= m < sites.len() ==> !((#[trigger] sites[m]).file == file && sites[m].literal
                    == literal),
        },
    decreases sites.len() - i,
{
    if i < sites.len() {
        lemma_sites_position(sites, file, literal, i + 1);
    }
}

/// Recording an occurrence appends its line to those of the literal, leaves
/// every other literal as it was, and lists no literal twice.
pub proof fn law_recording_an_occurrence(
    sites: Seq<SitesView>,
    file: Seq<char>,
    literal: Seq<char>,
    site: (Seq<char>, usize),
)
    requires
        sites_distinct(sites),
    ensures
        sites_distinct(with_site(sites, file, literal, site)),
        sites_of_literal(with_site(sites, file, literal, site), file, literal)
            == sites_of_literal(sites, file, literal).push(site),
        forall|f: Seq<char>, l: Seq<char>|
            !(f == file && l == literal) ==> #[trigger] sites_of_literal(
                with_site(sites, file, literal, site),
                f,
                l,
            ) == sites_of_literal(sites, f, l),
{
    let after = with_site(sites, file, literal, site);
    lemma_sites_position(sites, file, literal, 0);
    lemma_sites_position(after, file, literal, 0);
    assert forall|i: int, j: int| 0 <= i < j < after.len() implies !((#[trigger] after[i]).file == (
    #[trigger] after[j]).file && after[i].literal == after[j].literal) by {
        match sites_position(sites, file, literal, 0) {
            Some(k) => {
                assert(after[i].file == sites[i].file && after[i].literal == sites[i].literal);
                assert(after[j].file == sites[j].file && after[j].literal == sites[j].literal);
            },
            None => {
                assert(after[i] == sites[i]);
                if j < sites.len() {
                    assert(after[j] == sites[j]);
                }
            },
        }
    }
    match sites_position(sites, file, literal, 0) {
        Some(k) => {
            let m = sites_position(after, file, literal, 0)->0;
            assert(after[k].file == file && after[k].literal == literal);
            assert(m == k);
        },
        None => {
            let m = sites_position(after, file, literal, 0);
            assert(after[sites.len() as int].file == file);
            assert(m is Some);
            let k = m->0;
            if k < sites.len() {
                assert(after[k] == sites[k]);
            }
            assert(Seq::<(Seq<char>, usize)>::empty().push(site) =~= seq![site]);
        },
    }
    assert forall|f: Seq<char>, l: Seq<char>| !(f == file && l == literal) implies
        #[trigger] sites_of_literal(after, f, l) == sites_of_literal(sites, f, l) by {
        lemma_sites_position(sites, f, l, 0);
        lemma_sites_position(after, f, l, 0);
        let old_at = sites_position(sites, f, l, 0);
        let new_at = sites_position(after, f, l, 0);
        if let Some(k) = old_at {
            assert(after[k].file == f && after[k].literal == l);
            assert(new_at is Some);
            let m = new_at->0;
            assert(m <= k);
            if m < k {
                assert(after[m].file == sites[m].file && after[m].literal == sites[m].literal);
            }
        }
        if let Some(m) = new_at {
            if m < sites.len() {
                assert(after[m].file == sites[m].file && after[m].literal == sites[m].literal);
            }
        }
    }
}

/// Recording the occurrences of a line lists no literal twice.
pub proof fn law_recording_a_line(
    sites: Seq<SitesView>,
    file: Seq<char>,
    site: (Seq<char>, usize),
    literals: Seq<Option<Seq<char>>>,
    n: int,
)
    requires
        sites_distinct(sites),
        0 <= n <= literals.len(),
    ensures
        sites_distinct(with_sites(sites, file, site, literals, n)),
    decreases n,
{
    if n > 0 {
        law_recording_a_line(sites, file, site, literals, n - 1);
        if let Some(literal) = literals[n - 1] {
            law_recording_an_occurrence(
                with_sites(sites, file, site, literals, n - 1),
                file,
                literal,
                site,
            );
        }
    }
}

proof fn lemma_warning_for(
    sites: Seq<SitesView>,
    declared: Seq<(Seq<char>, Seq<char>)>,
    n: int,
    k: int,
)
    requires
        0 <= k < n <= sites.len(),
        is_repeated(sites[k], declared),
    ensures
        repeated_warnings(sites, declared, n).contains(repeated_text(sites[k])),
    decreases n,
{
    let all = repeated_warnings(sites, declared, n);
    let before = repeated_warnings(sites, declared, n - 1);
    if k == n - 1 {
        assert(all[before.len() as int] == repeated_text(sites[k]));
    } else {
        lemma_warning_for(sites, declared, n - 1, k);
        let i = choose|i: int| 0 <= i < before.len() && before[i] == repeated_text(sites[k]);
        assert(all[i] == before[i]);
    }
}

proof fn lemma_warning_from(
    sites: Seq<SitesView>,
    declared: Seq<(Seq<char>, Seq<char>)>,
    n: int,
    w: int,
)
    requires
        0 <= n <= sites.len(),
        0 <= w < repeated_warnings(sites, declared, n).len(),
    ensures
        exists|k: int|
            0 <= k < n && is_repeated(#[trigger] sites[k], declared) && repeated_warnings(
                sites,
                declared,
                n,
            )[w] == repeated_text(sites[k]),
    decreases n,
{
    if n > 0 {
        let before = repeated_warnings(sites, declared, n - 1);
        if w < before.len() {
            lemma_warning_from(sites, declared, n - 1, w);
            assert(repeated_warnings(sites, declared, n)[w] == before[w]);
        } else {
            assert(is_repeated(sites[n - 1], declared));
        }
    }
}

/// A literal that occurs often enough in the added lines of its file, and with
/// which no constant of that file is declared, is flagged.
pub proof fn law_repeated_literals_are_flagged(
    sites: Seq<SitesView>,
    declared: Seq<(Seq<char>, Seq<char>)>,
    k: int,
)
    requires
        0 <= k < sites.len(),
        is_repeated(sites[k], declared),
    ensures
        repeated_warnings(sites, declared, sites.len() as int).contains(repeated_text(sites[k])),
{
    lemma_warning_for(sites, declared, sites.len() as int, k);
}

/// No other literal is flagged.
pub proof fn law_flagged_literals_are_repeated(
    sites: Seq<SitesView>,
    declared: Seq<(Seq<char>, Seq<char>)>,
    w: int,
)
    requires
        0 <= w < repeated_warnings(sites, declared, sites.len() as int).len(),
    ensures
        exists|k: int|
            0 <= k < sites.len() && is_repeated(#[trigger] sites[k], declared) && repeated_warnings(
                sites,
                declared,
                sites.len() as int,
            )[w] == repeated_text(sites[k]),
{
    lemma_warning_from(sites, declared, sites.len() as int, w);
}

} // verus!
