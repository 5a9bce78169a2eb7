//! The rule set: rules, the folders they are bound to, and the views derived
//! from them.

use vstd::prelude::*;
use crate::distinct::first_seen;
use crate::distinct::lemma_first_seen_push;
use crate::distinct::lemma_first_seen_no_duplicates;
use vstd::string::StringExecFns;
use crate::order::ascending;
use crate::order::insert_text;
use crate::text::copy_texts;
use crate::text::join_texts;
use crate::text::joined;
use crate::text::has_text;

verus! {

/// A single directive: the messages of a folder that match `filter` go to
/// `target`.
#[derive(Debug, PartialEq, Eq)]
pub struct Rule {
    pub name: String,
    pub filter: String,
    pub target: String,
    pub enable: bool,
    pub tags: Option<Vec<String>>,
}

/// What a [`Rule`] holds, as mathematical values.
pub struct RuleView {
    pub name: Seq<char>,
    pub filter: Seq<char>,
    pub target: Seq<char>,
    pub enable: bool,
    pub tags: Option<Seq<Seq<char>>>,
}

impl View for Rule {
    type V = RuleView;

    open spec fn view(&self) -> RuleView {
        RuleView {
            name: self.name@,
            filter: self.filter@,
            target: self.target@,
            enable: self.enable,
            tags: self.tags.deep_view(),
        }
    }
}

impl DeepView for Rule {
    type V = RuleView;

    open spec fn deep_view(&self) -> RuleView {
        self@
    }
}

impl RuleView {
    /// Whether a rule passes the tag filter: with no tag requested every rule
    /// passes, otherwise only a rule that carries the requested tag.
    pub open spec fn matches(self, requested: Option<Seq<char>>) -> bool {
        match requested {
            None => true,
            Some(tag) => match self.tags {
                None => false,
                Some(tags) => tags.contains(tag),
            },
        }
    }
}

impl RuleView {
    /// Whether the rule carries the tag `tag`.
    pub open spec fn has_tag(self, tag: Seq<char>) -> bool {
        match self.tags {
            None => false,
            Some(tags) => tags.contains(tag),
        }
    }

    /// The tags with ", " between them; nothing where the rule has none.
    pub open spec fn tags_text(self) -> Seq<char> {
        match self.tags {
            None => Seq::empty(),
            Some(tags) => joined(tags, ", "@),
        }
    }

    /// The rule in four lines: name, filter, target and tags.
    pub open spec fn text(self) -> Seq<char> {
        "* rule:\t"@ + self.name + "\n\tfilter: "@ + self.filter + "\n\ttarget: "@ + self.target
            + "\n\ttags: "@ + self.tags_text()
    }

    /// The name, and after it the tags in square brackets where the rule has
    /// a list of them, be it empty.
    pub open spec fn label(self) -> Seq<char> {
        match self.tags {
            None => self.name,
            Some(tags) => self.name + " ["@ + joined(tags, ", "@) + "]"@,
        }
    }

    /// The rule as it is listed: its four lines, each ended.
    pub open spec fn printout(self) -> Seq<char> {
        self.text() + "\n"@
    }
}

/// Whether one of `rules` carries the tag `tag`.
pub open spec fn tagged(rules: Seq<RuleView>, tag: Seq<char>) -> bool {
    exists|i: int| 0 <= i < rules.len() && #[trigger] rules[i].has_tag(tag)
}

/// The printouts of `rules`, one after the other.
pub open spec fn rules_printout(rules: Seq<RuleView>) -> Seq<char>
    decreases rules.len(),
{
    if rules.len() == 0 {
        Seq::empty()
    } else {
        rules_printout(rules.drop_last()) + rules.last().printout()
    }
}

impl Clone for Rule {
    fn clone(&self) -> (copy: Rule)
        ensures
            copy@ == self@,
    {
        let tags = match &self.tags {
            None => None,
            Some(tags) => Some(copy_texts(tags)),
        };
        Rule {
            name: self.name.clone(),
            filter: self.filter.clone(),
            target: self.target.clone(),
            enable: self.enable,
            tags,
        }
    }
}

impl Rule {
    /// The tags with ", " between them; nothing where the rule has none.
    pub fn tags_string(&self) -> (text: String)
        ensures
            text@ == self@.tags_text(),
    {
        match &self.tags {
            Some(tags) => join_texts(tags, ", "),
            None => String::new(),
        }
    }

    /// The rule in four lines: name, filter, target and tags.
    pub fn as_string(&self) -> (text: String)
        ensures
            text@ == self@.text(),
    {
        let mut text = String::from_str("* rule:\t");
        text.append(self.name.as_str());
        text.append("\n\tfilter: ");
        text.append(self.filter.as_str());
        text.append("\n\ttarget: ");
        text.append(self.target.as_str());
        text.append("\n\ttags: ");
        text.append(self.tags_string().as_str());
        text
    }

    /// The rule as it is listed: its four lines, each ended.
    pub fn print(&self) -> (text: String)
        ensures
            text@ == self@.printout(),
    {
        let mut text = self.as_string();
        text.append("\n");
        text
    }

    /// The name, and after it the tags in square brackets where the rule has
    /// a list of them.
    pub fn name_and_tag(&self) -> (text: String)
        ensures
            text@ == self@.label(),
    {
        let mut text = self.name.clone();
        match &self.tags {
            Some(tags) => {
                text.append(" [");
                text.append(join_texts(tags, ", ").as_str());
                text.append("]");
            },
            None => {},
        }
        text
    }

    /// Whether this rule passes the tag filter `tag`.
    pub fn match_tag(&self, tag: &Option<String>) -> (matched: bool)
        ensures
            matched == self@.matches(tag.deep_view()),
    {
        match tag {
            None => true,
            Some(wanted) => match &self.tags {
                None => false,
                Some(tags) => has_text(tags, wanted),
            },
        }
    }
}

/// One or more folder names that share one ordered list of rules.
#[derive(Debug, PartialEq, Eq)]
pub struct FolderRule {
    pub folder: String,
    pub folders: Option<Vec<String>>,
    pub rules: Vec<Rule>,
}

/// What a [`FolderRule`] holds, as mathematical values.
pub struct FolderRuleView {
    pub folder: Seq<char>,
    pub folders: Option<Seq<Seq<char>>>,
    pub rules: Seq<RuleView>,
}

impl View for FolderRule {
    type V = FolderRuleView;

    open spec fn view(&self) -> FolderRuleView {
        FolderRuleView {
            folder: self.folder@,
            folders: self.folders.deep_view(),
            rules: self.rules.deep_view(),
        }
    }
}

impl DeepView for FolderRule {
    type V = FolderRuleView;

    open spec fn deep_view(&self) -> FolderRuleView {
        self@
    }
}

impl FolderRuleView {
    /// The other names under which the rules are also found; none where the
    /// list is absent.
    pub open spec fn aliases(self) -> Seq<Seq<char>> {
        match self.folders {
            None => Seq::empty(),
            Some(list) => list,
        }
    }

    /// The primary folder, then the aliases.
    pub open spec fn names(self) -> Seq<Seq<char>> {
        seq![self.folder] + self.aliases()
    }

    /// Whether the rules apply to the folder `name`.
    pub open spec fn serves(self, name: Seq<char>) -> bool {
        self.folder == name || self.aliases().contains(name)
    }

    /// Whether one of the rules carries the tag `tag`.
    pub open spec fn has_tag(self, tag: Seq<char>) -> bool {
        tagged(self.rules, tag)
    }

    /// The entry as it is listed: a line with the primary folder, then the
    /// rules.
    pub open spec fn printout(self) -> Seq<char> {
        "Folder: "@ + self.folder + "\n"@ + rules_printout(self.rules)
    }
}

/// Puts every tag of `rules` at its place in the ascending list `tags`.
fn gather_tags(rules: &Vec<Rule>, tags: &mut Vec<String>)
    requires
        ascending(old(tags).deep_view()),
    ensures
        ascending(final(tags).deep_view()),
        forall|t: Seq<char>|
            #![trigger final(tags).deep_view().contains(t)]
            #![trigger old(tags).deep_view().contains(t)]
            final(tags).deep_view().contains(t) <==> (old(tags).deep_view().contains(t) || tagged(
                rules.deep_view(),
                t,
            )),
{
    let ghost start = tags.deep_view();
    let mut i: usize = 0;
    while i < rules.len()
        invariant
            i <= rules.len(),
            ascending(tags.deep_view()),
            forall|t: Seq<char>|
                #![trigger tags.deep_view().contains(t)]
                tags.deep_view().contains(t) <==> (start.contains(t) || tagged(
                    rules.deep_view().take(i as int),
                    t,
                )),
        decreases rules.len() - i,
    {
        let ghost done = rules.deep_view().take(i as int);
        let ghost upto = rules.deep_view().take(i + 1);
        match &rules[i].tags {
            None => {},
            Some(list) => {
                let mut j: usize = 0;
                assert(list.deep_view().take(0) =~= Seq::empty());
                assert(rules[i as int]@.tags == Some(list.deep_view()));
                assert forall|t: Seq<char>| !(#[trigger] list.deep_view().take(0).contains(t)) by {}
                while j < list.len()
                    invariant
                        j <= list.len(),
                        ascending(tags.deep_view()),
                        forall|t: Seq<char>|
                            #![trigger tags.deep_view().contains(t)]
                            tags.deep_view().contains(t) <==> (start.contains(t) || tagged(done, t)
                                || list.deep_view().take(j as int).contains(t)),
                    decreases list.len() - j,
                {
                    insert_text(tags, &list[j]);
                    proof {
                        let shorter = list.deep_view().take(j as int);
                        let longer = list.deep_view().take(j + 1);
                        assert(longer =~= shorter.push(list[j as int]@));
                        assert forall|t: Seq<char>| longer.contains(t) <==> (shorter.contains(t)
                            || t == list[j as int]@) by {
                            if shorter.contains(t) {
                                let k = choose|k: int| 0 <= k < shorter.len() && shorter[k] == t;
                                assert(longer[k] == t);
                            }
                            if t == list[j as int]@ {
                                assert(longer[j as int] == t);
                            }
                        }
                    }
                    j += 1;
                }
                assert(list.deep_view().take(j as int) =~= list.deep_view());
            },
        }
        proof {
            assert(upto.drop_last() =~= done);
            assert(upto.last() == rules[i as int]@);
            assert(rules.deep_view()[i as int] == rules[i as int]@);
            assert forall|t: Seq<char>| tagged(upto, t) <==> (tagged(done, t) || rules[i as int]@.has_tag(
                t,
            )) by {
                if tagged(done, t) {
                    let k = choose|k: int| 0 <= k < done.len() && #[trigger] done[k].has_tag(t);
                    assert(upto[k].has_tag(t));
                }
                if rules[i as int]@.has_tag(t) {
                    assert(upto[i as int].has_tag(t));
                }
                if tagged(upto, t) {
                    let k = choose|k: int| 0 <= k < upto.len() && #[trigger] upto[k].has_tag(t);
                    if k < i {
                        assert(done[k].has_tag(t));
                    }
                }
            }
        }
        i += 1;
    }
    assert(rules.deep_view().take(i as int) =~= rules.deep_view());
}

/// Appends the printouts of `rules` to `text`.
fn print_rules(rules: &Vec<Rule>, text: &mut String)
    ensures
        final(text)@ == old(text)@ + rules_printout(rules.deep_view()),
{
    let ghost start = text@;
    let mut i: usize = 0;
    assert(rules.deep_view().take(0) =~= Seq::empty());
    while i < rules.len()
        invariant
            i <= rules.len(),
            text@ == start + rules_printout(rules.deep_view().take(i as int)),
        decreases rules.len() - i,
    {
        text.append(rules[i].print().as_str());
        proof {
            let upto = rules.deep_view().take(i + 1);
            assert(upto.drop_last() =~= rules.deep_view().take(i as int));
            assert(upto.last() == rules[i as int]@);
            assert(text@ =~= start + rules_printout(upto));
        }
        i += 1;
    }
    assert(rules.deep_view().take(i as int) =~= rules.deep_view());
}

impl FolderRule {
    /// The tags that the rules of this entry carry, each once, in ascending
    /// order.
    pub fn list_tags(&self) -> (tags: Vec<String>)
        ensures
            ascending(tags.deep_view()),
            forall|t: Seq<char>|
                #![trigger tags.deep_view().contains(t)]
                #![trigger self@.has_tag(t)]
                tags.deep_view().contains(t) <==> self@.has_tag(t),
    {
        let mut tags: Vec<String> = Vec::new();
        gather_tags(&self.rules, &mut tags);
        tags
    }

    /// The entry as it is listed: a line with the primary folder, then the
    /// rules.
    pub fn print(&self) -> (text: String)
        ensures
            text@ == self@.printout(),
    {
        let mut text = String::from_str("Folder: ");
        text.append(self.folder.as_str());
        text.append("\n");
        print_rules(&self.rules, &mut text);
        text
    }
}

/// Every rule of the configuration, folder by folder.
#[derive(Debug, PartialEq, Eq)]
pub struct RulesSet {
    pub folders: Vec<FolderRule>,
}

/// What a [`RulesSet`] holds, as mathematical values.
pub struct RulesSetView {
    pub folders: Seq<FolderRuleView>,
}

impl View for RulesSet {
    type V = RulesSetView;

    open spec fn view(&self) -> RulesSetView {
        RulesSetView { folders: self.folders.deep_view() }
    }
}

/// The names of all the entries of `folders`, in document order and with
/// repetitions: for each entry its primary folder, then its aliases.
pub open spec fn all_names(folders: Seq<FolderRuleView>) -> Seq<Seq<char>>
    decreases folders.len(),
{
    if folders.len() == 0 {
        Seq::empty()
    } else {
        all_names(folders.drop_last()) + folders.last().names()
    }
}

/// The rules of every entry of `folders` that serves `name`, one entry after
/// the other in document order.
pub open spec fn rules_serving(folders: Seq<FolderRuleView>, name: Seq<char>) -> Seq<RuleView>
    decreases folders.len(),
{
    if folders.len() == 0 {
        Seq::empty()
    } else if folders.last().serves(name) {
        rules_serving(folders.drop_last(), name) + folders.last().rules
    } else {
        rules_serving(folders.drop_last(), name)
    }
}

/// The printouts of `folders`, one after the other.
pub open spec fn folders_printout(folders: Seq<FolderRuleView>) -> Seq<char>
    decreases folders.len(),
{
    if folders.len() == 0 {
        Seq::empty()
    } else {
        folders_printout(folders.drop_last()) + folders.last().printout()
    }
}

impl RulesSetView {
    /// Whether a rule of some entry carries the tag `tag`.
    pub open spec fn has_tag(self, tag: Seq<char>) -> bool {
        exists|i: int| 0 <= i < self.folders.len() && #[trigger] self.folders[i].has_tag(tag)
    }

    /// The whole rule set as it is listed, entry after entry.
    pub open spec fn printout(self) -> Seq<char> {
        folders_printout(self.folders)
    }

    /// The folders to visit: every name once, in the order of first mention.
    pub open spec fn folder_names(self) -> Seq<Seq<char>> {
        first_seen(all_names(self.folders))
    }

    /// The rules that apply to the folder `name`, in execution order.
    pub open spec fn rules_for(self, name: Seq<char>) -> Seq<RuleView> {
        rules_serving(self.folders, name)
    }

    /// A rule set of one entry: the rules that apply to the folder `source`,
    /// bound to the folder `folder` alone.
    pub open spec fn rebound(self, source: Seq<char>, folder: Seq<char>) -> RulesSetView {
        RulesSetView {
            folders: seq![
                FolderRuleView { folder, folders: None, rules: self.rules_for(source) },
            ],
        }
    }
}

/// Appends `name` to `names` unless it is there already.
fn push_unseen(names: &mut Vec<String>, name: &String, Ghost(seen): Ghost<Seq<Seq<char>>>)
    requires
        old(names).deep_view() == first_seen(seen),
    ensures
        final(names).deep_view() == first_seen(seen.push(name@)),
{
    proof {
        lemma_first_seen_push(seen, name@);
    }
    if !has_text(names, name) {
        let ghost before = names.deep_view();
        names.push(name.clone());
        assert(names.deep_view() =~= before.push(name@));
    }
}

impl RulesSet {
    /// A rule set of one entry: the rules that apply to the folder `source`,
    /// bound to the folder `folder` alone.
    pub fn rules_on_folder(&self, source: String, folder: String) -> (bound: RulesSet)
        ensures
            bound@ == self@.rebound(source@, folder@),
    {
        let entry = FolderRule { folder, folders: None, rules: self.rules_for_folder(source) };
        let mut folders: Vec<FolderRule> = Vec::new();
        folders.push(entry);
        assert(folders.deep_view() =~= seq![entry@]);
        RulesSet { folders }
    }

    /// The tags that the rules carry, each once, in ascending order.
    pub fn list_tags(&self) -> (tags: Vec<String>)
        ensures
            ascending(tags.deep_view()),
            forall|t: Seq<char>|
                #![trigger tags.deep_view().contains(t)]
                #![trigger self@.has_tag(t)]
                tags.deep_view().contains(t) <==> self@.has_tag(t),
    {
        let mut tags: Vec<String> = Vec::new();
        let mut i: usize = 0;
        while i < self.folders.len()
            invariant
                i <= self.folders.len(),
                ascending(tags.deep_view()),
                forall|t: Seq<char>|
                    #![trigger tags.deep_view().contains(t)]
                    tags.deep_view().contains(t) <==> exists|k: int|
                        0 <= k < i && #[trigger] self@.folders[k].has_tag(t),
            decreases self.folders.len() - i,
        {
            let ghost held = tags.deep_view();
            gather_tags(&self.folders[i].rules, &mut tags);
            proof {
                assert(self.folders[i as int]@ == self@.folders[i as int]);
                assert forall|t: Seq<char>| #![trigger tags.deep_view().contains(t)]
                    tags.deep_view().contains(t) <==> exists|k: int|
                        0 <= k < i + 1 && #[trigger] self@.folders[k].has_tag(t) by {
                    if held.contains(t) {
                        let k = choose|k: int| 0 <= k < i && #[trigger] self@.folders[k].has_tag(t);
                        assert(self@.folders[k].has_tag(t));
                    }
                    if tagged(self.folders[i as int].rules.deep_view(), t) {
                        assert(self@.folders[i as int].has_tag(t));
                    }
                    if exists|k: int| 0 <= k < i + 1 && #[trigger] self@.folders[k].has_tag(t) {
                        let k = choose|k: int|
                            0 <= k < i + 1 && #[trigger] self@.folders[k].has_tag(t);
                        if k < i {
                            assert(held.contains(t));
                        }
                    }
                }
            }
            i += 1;
        }
        tags
    }

    /// The whole rule set as it is listed, entry after entry.
    pub fn print(&self) -> (text: String)
        ensures
            text@ == self@.printout(),
    {
        let mut text = String::new();
        let mut i: usize = 0;
        assert(self@.folders.take(0) =~= Seq::empty());
        while i < self.folders.len()
            invariant
                i <= self.folders.len(),
                text@ == folders_printout(self@.folders.take(i as int)),
            decreases self.folders.len() - i,
        {
            text.append(self.folders[i].print().as_str());
            proof {
                let upto = self@.folders.take(i + 1);
                assert(upto.drop_last() =~= self@.folders.take(i as int));
                assert(upto.last() == self.folders[i as int]@);
            }
            i += 1;
        }
        assert(self@.folders.take(i as int) =~= self@.folders);
        text
    }

    /// The folders that the rules name, primary names and aliases alike, each
    /// once and in the order in which the configuration first mentions it.
    pub fn list_folders(&self) -> (names: Vec<String>)
        ensures
            names.deep_view() == self@.folder_names(),
            names.deep_view().no_duplicates(),
    {
        let mut names: Vec<String> = Vec::new();
        let ghost mut seen: Seq<Seq<char>> = Seq::empty();
        let mut i: usize = 0;
        assert(self@.folders.take(0) =~= Seq::empty());
        while i < self.folders.len()
            invariant
                i <= self.folders.len(),
                seen == all_names(self@.folders.take(i as int)),
                names.deep_view() == first_seen(seen),
            decreases self.folders.len() - i,
        {
            let entry = &self.folders[i];
            let ghost start = seen;
            push_unseen(&mut names, &entry.folder, Ghost(seen));
            proof {
                seen = seen.push(entry.folder@);
            }
            match &entry.folders {
                None => {},
                Some(list) => {
                    let mut j: usize = 0;
                    assert(list.deep_view().take(0) =~= Seq::empty());
                    while j < list.len()
                        invariant
                            j <= list.len(),
                            seen == start.push(entry.folder@) + list.deep_view().take(j as int),
                            names.deep_view() == first_seen(seen),
                        decreases list.len() - j,
                    {
                        push_unseen(&mut names, &list[j], Ghost(seen));
                        proof {
                            assert(list.deep_view().take(j + 1) =~= list.deep_view().take(
                                j as int,
                            ).push(list[j as int]@));
                            seen = seen.push(list[j as int]@);
                        }
                        j += 1;
                    }
                    assert(list.deep_view().take(j as int) =~= list.deep_view());
                },
            }
            proof {
                let upto = self@.folders.take(i + 1);
                assert(upto.drop_last() =~= self@.folders.take(i as int));
                assert(upto.last() == entry@);
                assert(seen =~= start + entry@.names());
            }
            i += 1;
        }
        proof {
            assert(self@.folders.take(i as int) =~= self@.folders);
            lemma_first_seen_no_duplicates(seen);
        }
        names
    }

    /// The rules to run on the folder `folder`: those of every entry that
    /// names it, as primary folder or as alias, in document order.
    pub fn rules_for_folder(&self, folder: String) -> (rules: Vec<Rule>)
        ensures
            rules.deep_view() == self@.rules_for(folder@),
    {
        let mut rules: Vec<Rule> = Vec::new();
        let mut i: usize = 0;
        assert(self@.folders.take(0) =~= Seq::empty());
        while i < self.folders.len()
            invariant
                i <= self.folders.len(),
                rules.deep_view() == rules_serving(self@.folders.take(i as int), folder@),
            decreases self.folders.len() - i,
        {
            let entry = &self.folders[i];
            let named = entry.folder == folder || match &entry.folders {
                None => false,
                Some(list) => has_text(list, &folder),
            };
            let ghost start = rules.deep_view();
            if named {
                let mut j: usize = 0;
                while j < entry.rules.len()
                    invariant
                        j <= entry.rules.len(),
                        rules.deep_view() == start + entry@.rules.take(j as int),
                    decreases entry.rules.len() - j,
                {
                    let ghost before = rules.deep_view();
                    rules.push(entry.rules[j].clone());
                    assert(rules.deep_view() =~= before.push(entry.rules[j as int]@));
                    assert(entry@.rules.take(j + 1) =~= entry@.rules.take(j as int).push(
                        entry.rules[j as int]@,
                    ));
                    j += 1;
                }
                assert(entry@.rules.take(j as int) =~= entry@.rules);
            }
            proof {
                let upto = self@.folders.take(i + 1);
                assert(upto.drop_last() =~= self@.folders.take(i as int));
                assert(upto.last() == entry@);
            }
            i += 1;
        }
        assert(self@.folders.take(i as int) =~= self@.folders);
        rules
    }
}

} // verus!
