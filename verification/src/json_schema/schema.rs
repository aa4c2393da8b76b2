//! Compiled schemas, their identities, and the context in which a keyword
//! is compiled.

use crate::json_schema::validators::{validators_view, Validator, ValidatorView};
use crate::text::{chars_of, copy_texts, same_text, texts};
use crate::value::{first_named, Json, Value};
use vstd::prelude::*;

verus! {

/// The content of a [`SchemaId`].
pub struct SchemaIdView {
    pub root: nat,
    pub name: Option<Seq<char>>,
    pub pointer: Seq<char>,
}

/// The identity of a schema within its scope.
#[derive(Debug)]
pub struct SchemaId {
    /// The position, in the scope, of the root schema of the document that
    /// the schema was compiled from; the position of the schema itself
    /// where it is that root.
    pub root: usize,
    /// The identifier under which a root schema is registered.
    pub name: Option<String>,
    /// Where the schema stands in its document: empty for the root, and
    /// `/definitions/<name>` appended for each step into a definition.
    pub pointer: String,
}

impl View for SchemaId {
    type V = SchemaIdView;

    open spec fn view(&self) -> SchemaIdView {
        SchemaIdView {
            root: self.root as nat,
            name: match self.name {
                Some(name) => Some(name@),
                None => None,
            },
            pointer: self.pointer@,
        }
    }
}

impl SchemaId {
    /// A copy of the identity.
    pub fn duplicate(&self) -> (copy: SchemaId)
        ensures
            copy@ == self@,
    {
        SchemaId {
            root: self.root,
            name: match &self.name {
                Some(name) => Some(name.clone()),
                None => None,
            },
            pointer: self.pointer.clone(),
        }
    }
}

/// The first position at or after `from` of a schema of the document
/// rooted at `root` that stands at `pointer`.
pub open spec fn locate_from(
    directory: Seq<SchemaIdView>,
    root: nat,
    pointer: Seq<char>,
    from: int,
) -> Option<nat>
    decreases directory.len() - from,
{
    if from < 0 || from >= directory.len() {
        None
    } else if directory[from].root == root && directory[from].pointer == pointer {
        Some(from as nat)
    } else {
        locate_from(directory, root, pointer, from + 1)
    }
}

/// The first position at or after `from` of a schema registered as `name`.
pub open spec fn named_from(directory: Seq<SchemaIdView>, name: Seq<char>, from: int) -> Option<nat>
    decreases directory.len() - from,
{
    if from < 0 || from >= directory.len() {
        None
    } else if directory[from].name == Some(name) {
        Some(from as nat)
    } else {
        named_from(directory, name, from + 1)
    }
}

/// The first position at or after `from` where `text` holds `c`, or the
/// length of the text where it holds none there.
pub open spec fn first_index_of(text: Seq<char>, c: char, from: int) -> int
    decreases text.len() - from,
{
    if from < 0 || from >= text.len() {
        text.len() as int
    } else if text[from] == c {
        from
    } else {
        first_index_of(text, c, from + 1)
    }
}

/// The position that is found lies at or after `from`, within the text or
/// at its end.
pub proof fn lemma_first_index_in_range(text: Seq<char>, c: char, from: int)
    requires
        0 <= from <= text.len(),
    ensures
        from <= first_index_of(text, c, from) <= text.len(),
    decreases text.len() - from,
{
    if from < text.len() && text[from] != c {
        lemma_first_index_in_range(text, c, from + 1);
    }
}

/// The part of a reference before its first `#`: the identifier of a
/// document, or nothing for the document in which the reference stands.
pub open spec fn reference_base(reference: Seq<char>) -> Seq<char> {
    reference.take(first_index_of(reference, '#', 0))
}

/// The part of a reference behind its first `#`: the place of a schema in
/// its document. A reference without `#` points at the root.
pub open spec fn reference_pointer(reference: Seq<char>) -> Seq<char> {
    let cut = first_index_of(reference, '#', 0);
    if cut < reference.len() {
        reference.skip(cut + 1)
    } else {
        Seq::empty()
    }
}

/// The position of the schema that `reference` names when it stands in the
/// document rooted at `root`; `None` where it names no schema.
pub open spec fn resolve_reference(
    directory: Seq<SchemaIdView>,
    root: nat,
    reference: Seq<char>,
) -> Option<nat> {
    let base = reference_base(reference);
    let pointer = reference_pointer(reference);
    if base.len() == 0 {
        locate_from(directory, root, pointer, 0)
    } else {
        match named_from(directory, base, 0) {
            Some(named) => locate_from(directory, named, pointer, 0),
            None => None,
        }
    }
}

/// A position that is found lies in the directory.
pub proof fn lemma_locate_in_range(
    directory: Seq<SchemaIdView>,
    root: nat,
    pointer: Seq<char>,
    from: int,
)
    ensures
        locate_from(directory, root, pointer, from) matches Some(found) ==> from <= found
            < directory.len(),
    decreases directory.len() - from,
{
    if 0 <= from < directory.len() && !(directory[from].root == root && directory[from].pointer
        == pointer) {
        lemma_locate_in_range(directory, root, pointer, from + 1);
    }
}

/// The content of each identity of `ids`.
pub open spec fn ids_view(ids: Seq<SchemaId>) -> Seq<SchemaIdView> {
    Seq::new(ids.len(), |i: int| ids[i]@)
}

/// The identities of the schemas of a scope, by position. It holds the
/// schemas that are compiled and those whose compilation is under way.
#[derive(Debug)]
pub struct Directory {
    pub ids: Vec<SchemaId>,
}

impl View for Directory {
    type V = Seq<SchemaIdView>;

    open spec fn view(&self) -> Seq<SchemaIdView> {
        ids_view(self.ids@)
    }
}

impl Directory {
    /// The position of the schema of the document rooted at `root` that
    /// stands at `pointer`.
    pub fn locate(&self, root: usize, pointer: &str) -> (found: Option<usize>)
        ensures
            option_position(found) == locate_from(self@, root as nat, pointer@, 0),
            found matches Some(position) ==> position < self.ids.len(),
    {
        let mut i: usize = 0;
        while i < self.ids.len()
            invariant
                i <= self.ids.len(),
                locate_from(self@, root as nat, pointer@, 0) == locate_from(
                    self@,
                    root as nat,
                    pointer@,
                    i as int,
                ),
            decreases self.ids.len() - i,
        {
            if self.ids[i].root == root && same_text(self.ids[i].pointer.as_str(), pointer) {
                return Some(i);
            }
            i += 1;
        }
        None
    }

    /// The position of the schema registered as `name`.
    pub fn named(&self, name: &str) -> (found: Option<usize>)
        ensures
            option_position(found) == named_from(self@, name@, 0),
            found matches Some(position) ==> position < self.ids.len(),
    {
        let mut i: usize = 0;
        while i < self.ids.len()
            invariant
                i <= self.ids.len(),
                named_from(self@, name@, 0) == named_from(self@, name@, i as int),
            decreases self.ids.len() - i,
        {
            let matches: bool = match &self.ids[i].name {
                Some(registered) => same_text(registered.as_str(), name),
                None => false,
            };
            if matches {
                return Some(i);
            }
            i += 1;
        }
        None
    }

    /// The position of the schema that `reference` names when it stands in
    /// the document rooted at `root`.
    pub fn resolve(&self, root: usize, reference: &str) -> (found: Option<usize>)
        ensures
            option_position(found) == resolve_reference(self@, root as nat, reference@),
            found matches Some(position) ==> position < self.ids.len(),
    {
        let chars: Vec<char> = chars_of(reference);
        let length: usize = chars.len();
        let mut cut: usize = 0;
        while cut < length && chars[cut] != '#'
            invariant
                cut <= length == chars.len(),
                chars@ == reference@,
                first_index_of(reference@, '#', 0) == first_index_of(reference@, '#', cut as int),
            decreases length - cut,
        {
            cut += 1;
        }
        let base: &str = reference.substring_char(0, cut);
        let start: usize = if cut == 0 {
            root
        } else {
            match self.named(base) {
                Some(named) => named,
                None => {
                    return None;
                },
            }
        };
        if cut < length {
            let pointer: &str = reference.substring_char(cut + 1, length);
            self.locate(start, pointer)
        } else {
            proof {
                reveal_strlit("");
                assert(""@ =~= reference_pointer(reference@));
            }
            self.locate(start, "")
        }
    }
}

/// A position as a natural number.
pub open spec fn option_position(position: Option<usize>) -> Option<nat> {
    match position {
        Some(p) => Some(p as nat),
        None => None,
    }
}

/// The content of a [`WalkContext`].
pub struct WalkContextView {
    pub fragment: Seq<Seq<char>>,
    pub directory: Seq<SchemaIdView>,
    pub root: nat,
}

/// What a keyword is compiled against: where the schema stands in its
/// document, and the identities of the schemas of the enclosing scope.
/// It is made for one schema and not kept.
pub struct WalkContext<'a> {
    /// The names that lead from the root of the document to the schema.
    pub fragment: Vec<String>,
    /// The identities of the schemas of the scope.
    pub directory: &'a Directory,
    /// The position of the root schema of the document.
    pub root: usize,
}

impl<'a> View for WalkContext<'a> {
    type V = WalkContextView;

    open spec fn view(&self) -> WalkContextView {
        WalkContextView {
            fragment: texts(self.fragment@),
            directory: self.directory@,
            root: self.root as nat,
        }
    }
}

/// The content of a [`Schema`].
pub struct SchemaView<C> {
    pub id: SchemaIdView,
    pub validators: Seq<ValidatorView<C>>,
}

/// A compiled schema: its identity and its validators, in the order in
/// which they are applied. It is owned by its scope and never changes once
/// it is there.
#[derive(Debug)]
pub struct Schema<C> {
    pub id: SchemaId,
    pub validators: Vec<Validator<C>>,
}

impl<C> View for Schema<C> {
    type V = SchemaView<C>;

    open spec fn view(&self) -> SchemaView<C> {
        SchemaView { id: self.id@, validators: validators_view(self.validators@) }
    }
}

/// The content of a [`Unit`].
pub struct UnitView {
    pub pointer: Seq<char>,
    pub fragment: Seq<Seq<char>>,
    pub document: Json,
}

/// One schema of a document: the document's root, or a schema that stands
/// under the member `definitions` of another schema of the document.
pub struct Unit<'a> {
    /// Where the schema stands in the document, as references name it.
    pub pointer: String,
    /// The names that lead from the root of the document to the schema.
    pub fragment: Vec<String>,
    /// The schema itself.
    pub document: &'a Value,
}

impl<'a> View for Unit<'a> {
    type V = UnitView;

    open spec fn view(&self) -> UnitView {
        UnitView {
            pointer: self.pointer@,
            fragment: texts(self.fragment@),
            document: self.document@,
        }
    }
}

/// The content of each unit of `units`.
pub open spec fn units_view(units: Seq<Unit>) -> Seq<UnitView> {
    Seq::new(units.len(), |i: int| units[i]@)
}

/// A member that is found is one of the members.
pub proof fn lemma_member_index(members: Seq<(Seq<char>, Json)>, name: Seq<char>)
    ensures
        first_named(members, name) matches Some(found) ==> exists|i: int|
            0 <= i < members.len() && (#[trigger] members[i]).1 == found,
    decreases members.len(),
{
    if members.len() > 0 && members[0].0 != name {
        lemma_member_index(members.drop_first(), name);
        if first_named(members, name) is Some {
            let found = first_named(members, name)->Some_0;
            let i = choose|i: int|
                0 <= i < members.drop_first().len() && (#[trigger] members.drop_first()[i]).1
                    == found;
        }
    }
}

/// A member of a document is a smaller document.
pub proof fn lemma_member_smaller(document: Json, name: Seq<char>)
    ensures
        document.member(name) matches Some(found) ==> decreases_to!(document => found),
{
    match document {
        Json::Object(members) => {
            lemma_member_index(members, name);
        },
        _ => {},
    }
}

/// The schemas of the document `document`, which stands at `pointer` and
/// `fragment`: the document itself, then, for each member of its member
/// `definitions` in order, the schemas of that member.
pub open spec fn document_units(
    document: Json,
    pointer: Seq<char>,
    fragment: Seq<Seq<char>>,
) -> Seq<UnitView>
    decreases document, 0nat,
{
    seq![UnitView { pointer, fragment, document }] + match document.member("definitions"@) {
        Some(definitions) => {
            proof {
                lemma_member_smaller(document, "definitions"@);
            }
            member_units(definitions, definitions_count(definitions), pointer, fragment)
        },
        None => Seq::empty(),
    }
}

/// The number of definitions that `definitions` holds.
pub open spec fn definitions_count(definitions: Json) -> nat {
    match definitions {
        Json::Object(members) => members.len(),
        _ => 0,
    }
}

/// The pointer of the definition called `name` of the schema at `pointer`.
pub open spec fn definition_pointer(pointer: Seq<char>, name: Seq<char>) -> Seq<char> {
    pointer + "/definitions/"@ + name
}

/// The fragment of the definition called `name` of the schema at
/// `fragment`.
pub open spec fn definition_fragment(fragment: Seq<Seq<char>>, name: Seq<char>) -> Seq<Seq<char>> {
    fragment.push("definitions"@).push(name)
}

/// The schemas of the first `upto` members of `definitions`, the member
/// `definitions` of the schema that stands at `pointer` and `fragment`.
pub open spec fn member_units(
    definitions: Json,
    upto: nat,
    pointer: Seq<char>,
    fragment: Seq<Seq<char>>,
) -> Seq<UnitView>
    decreases definitions, upto,
{
    match definitions {
        Json::Object(members) => if upto == 0 || upto > members.len() {
            Seq::empty()
        } else {
            let member = members[upto - 1];
            member_units(definitions, (upto - 1) as nat, pointer, fragment) + document_units(
                member.1,
                definition_pointer(pointer, member.0),
                definition_fragment(fragment, member.0),
            )
        },
        _ => Seq::empty(),
    }
}

/// Appends to `units` the schemas of `document`, which stands at `pointer`
/// and `fragment`.
pub fn collect_units<'a>(
    document: &'a Value,
    pointer: String,
    fragment: Vec<String>,
    units: &mut Vec<Unit<'a>>,
)
    ensures
        units_view(final(units)@) == units_view(old(units)@) + document_units(
            document@,
            pointer@,
            texts(fragment@),
        ),
    decreases document@,
{
    let ghost before = units_view(units@);
    let ghost place = pointer@;
    let ghost names = texts(fragment@);
    let own_pointer: String = pointer.clone();
    let own_fragment: Vec<String> = copy_texts(&fragment);
    units.push(Unit { pointer: own_pointer, fragment: own_fragment, document });
    proof {
        assert(units_view(units@) =~= before + seq![
            UnitView { pointer: place, fragment: names, document: document@ },
        ]);
    }
    let definitions: &Value = match document.find("definitions") {
        Some(definitions) => definitions,
        None => {
            return ;
        },
    };
    proof {
        lemma_member_smaller(document@, "definitions"@);
    }
    match definitions {
        Value::Object(members) => {
            let ghost all = definitions@->Object_0;
            let ghost own = before + seq![
                UnitView { pointer: place, fragment: names, document: document@ },
            ];
            let mut i: usize = 0;
            while i < members.len()
                invariant
                    i <= members.len(),
                    definitions@ == Json::Object(all),
                    all.len() == members.len(),
                    forall|j: int|
                        0 <= j < members.len() ==> all[j] == (
                            members[j].0@,
                            (#[trigger] members[j]).1@,
                        ),
                    decreases_to!(document@ => definitions@),
                    place == pointer@,
                    names == texts(fragment@),
                    units_view(units@) == own + member_units(definitions@, i as nat, place, names),
                decreases members.len() - i,
            {
                let name: &String = &members[i].0;
                let mut child_pointer: String = pointer.clone();
                child_pointer.append("/definitions/");
                child_pointer.append(name.as_str());
                let mut child_fragment: Vec<String> = copy_texts(&fragment);
                child_fragment.push("definitions".to_owned());
                child_fragment.push(name.clone());
                proof {
                    assert(texts(child_fragment@) =~= definition_fragment(names, name@));
                    assert(decreases_to!(all[i as int] => all[i as int].1));
                }
                collect_units(&members[i].1, child_pointer, child_fragment, units);
                proof {
                    assert(units_view(units@) =~= own + member_units(
                        definitions@,
                        (i + 1) as nat,
                        place,
                        names,
                    ));
                }
                i += 1;
            }
        },
        _ => {},
    }
}

} // verus!
