//! The rule table: which command template converts the files of an extension.

use crate::text::same_text;
use crate::text::text_of;
use vstd::prelude::*;
use vstd::string::StringExecFns;

verus! {

/// One rule: the files with `extension` are converted by `template`.
pub struct Rule {
    pub extension: String,
    pub template: String,
}

/// The rules of a batch. No extension has two rules.
pub struct RuleTable {
    entries: Vec<Rule>,
}

/// The table that a sequence of rules stands for: each extension is mapped to
/// the template of its rule.
pub open spec fn table_of(entries: Seq<Rule>) -> Map<Seq<char>, Seq<char>>
    decreases entries.len(),
{
    if entries.len() == 0 {
        Map::empty()
    } else {
        table_of(entries.drop_last()).insert(entries.last().extension@, entries.last().template@)
    }
}

/// No two rules of `entries` are for the same extension.
pub open spec fn distinct_extensions(entries: Seq<Rule>) -> bool {
    forall|i: int, j: int|
        0 <= i < j < entries.len() ==> entries[i].extension@ != entries[j].extension@
}

/// The table of `entries` holds the extensions of its rules and no others.
pub proof fn lemma_table_domain(entries: Seq<Rule>, extension: Seq<char>)
    ensures
        table_of(entries).dom().contains(extension) <==> exists|i: int|
            0 <= i < entries.len() && #[trigger] entries[i].extension@ == extension,
    decreases entries.len(),
{
    if entries.len() > 0 {
        let rest = entries.drop_last();
        lemma_table_domain(rest, extension);
        if exists|i: int| 0 <= i < entries.len() && #[trigger] entries[i].extension@ == extension {
            let i = choose|i: int|
                0 <= i < entries.len() && #[trigger] entries[i].extension@ == extension;
            if i < rest.len() {
                assert(rest[i].extension@ == extension);
            }
        }
    }
}

/// Where no extension has two rules, the table maps the extension of each
/// rule to that rule's template.
pub proof fn lemma_table_entry(entries: Seq<Rule>, i: int)
    requires
        distinct_extensions(entries),
        0 <= i < entries.len(),
    ensures
        table_of(entries).dom().contains(entries[i].extension@),
        table_of(entries)[entries[i].extension@] == entries[i].template@,
    decreases entries.len(),
{
    let rest = entries.drop_last();
    if i < entries.len() - 1 {
        lemma_table_entry(rest, i);
    }
}

impl View for RuleTable {
    type V = Map<Seq<char>, Seq<char>>;

    closed spec fn view(&self) -> Map<Seq<char>, Seq<char>> {
        table_of(self.entries@)
    }
}

impl RuleTable {
    #[verifier::type_invariant]
    spec fn well_formed(&self) -> bool {
        distinct_extensions(self.entries@)
    }

    /// The table without rules.
    pub fn new() -> (table: RuleTable)
        ensures
            table@ == Map::<Seq<char>, Seq<char>>::empty(),
    {
        RuleTable { entries: Vec::new() }
    }

    /// The position of the rule for `extension`, if there is one.
    fn position(&self, extension: &str) -> (at: Option<usize>)
        ensures
            match at {
                Some(i) => i < self.entries@.len() && self.entries@[i as int].extension@
                    == extension@,
                None => !self@.dom().contains(extension@),
            },
    {
        let mut i: usize = 0;
        while i < self.entries.len()
            invariant
                i <= self.entries@.len(),
                forall|k: int| 0 <= k < i ==> self.entries@[k].extension@ != extension@,
            decreases self.entries@.len() - i,
        {
            if same_text(self.entries[i].extension.as_str(), extension) {
                return Some(i);
            }
            i += 1;
        }
        proof {
            lemma_table_domain(self.entries@, extension@);
        }
        None
    }

    /// The template of the rule for `extension`. The comparison is exact:
    /// case counts, and so does every character.
    pub fn lookup(&self, extension: &str) -> (template: Option<String>)
        ensures
            text_of(template) == if self@.dom().contains(extension@) {
                Some(self@[extension@])
            } else {
                None
            },
    {
        match self.position(extension) {
            Some(i) => {
                proof {
                    use_type_invariant(self);
                    lemma_table_entry(self.entries@, i as int);
                }
                Some(self.entries[i].template.clone())
            },
            None => None,
        }
    }

    /// Sets the rule for `extension`, in place of the one it had, if any.
    pub fn insert(&mut self, extension: &str, template: &str)
        ensures
            final(self)@ == old(self)@.insert(extension@, template@),
    {
        proof {
            use_type_invariant(&*self);
        }
        let rule = Rule { extension: String::from_str(extension), template: String::from_str(template) };
        let at = self.position(extension);
        let ghost before = self.entries@;
        let mut entries: Vec<Rule> = Vec::new();
        std::mem::swap(&mut entries, &mut self.entries);
        match at {
            Some(i) => {
                entries.set(i, rule);
                proof {
                    lemma_table_update(before, i as int, rule);
                }
            },
            None => {
                proof {
                    lemma_table_domain(before, extension@);
                }
                entries.push(rule);
                assert(entries@.drop_last() =~= before);
            },
        }
        self.entries = entries;
    }

    /// The number of rules.
    pub fn len(&self) -> (n: usize)
        ensures
            n == self@.dom().len(),
            self@.dom().finite(),
    {
        proof {
            use_type_invariant(self);
            lemma_table_len(self.entries@);
        }
        self.entries.len()
    }

    /// The rules, one for each extension, in no particular order.
    pub fn rules(&self) -> (rules: &Vec<Rule>)
        ensures
            distinct_extensions(rules@),
            table_of(rules@) == self@,
    {
        proof {
            use_type_invariant(self);
        }
        &self.entries
    }
}

/// Replacing a rule by another for the same extension changes the template
/// of that extension, and nothing else.
pub proof fn lemma_table_update(entries: Seq<Rule>, i: int, rule: Rule)
    requires
        distinct_extensions(entries),
        0 <= i < entries.len(),
        entries[i].extension@ == rule.extension@,
    ensures
        distinct_extensions(entries.update(i, rule)),
        table_of(entries.update(i, rule)) == table_of(entries).insert(
            rule.extension@,
            rule.template@,
        ),
    decreases entries.len(),
{
    let updated = entries.update(i, rule);
    let rest = entries.drop_last();
    if i == entries.len() - 1 {
        assert(updated.drop_last() =~= rest);
    } else {
        lemma_table_update(rest, i, rule);
        assert(updated.drop_last() =~= rest.update(i, rule));
    }
}

/// A table has as many entries as the rules it was made of, where no two of
/// them are for the same extension.
pub proof fn lemma_table_len(entries: Seq<Rule>)
    requires
        distinct_extensions(entries),
    ensures
        table_of(entries).dom().finite(),
        table_of(entries).dom().len() == entries.len(),
    decreases entries.len(),
{
    if entries.len() > 0 {
        let rest = entries.drop_last();
        lemma_table_len(rest);
        lemma_table_domain(rest, entries.last().extension@);
    }
}

} // verus!
