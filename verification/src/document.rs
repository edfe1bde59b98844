use vstd::prelude::*;
use crate::text::text_eq;

verus! {

/// The shape that a JSON text and a YAML text share once they are read.
#[derive(Debug, PartialEq, Eq)]
pub enum Node {
    Null,
    Flag(bool),
    /// A number, in the digits in which JSON writes it.
    Number(String),
    Text(String),
    List(Vec<Node>),
    /// The entries of a mapping, in the order of the document.
    Table(Vec<(String, Node)>),
}

/// What a `Node` stands for.
pub enum Tree {
    Null,
    Flag(bool),
    Number(Seq<char>),
    Text(Seq<char>),
    List(Seq<Tree>),
    Table(Seq<(Seq<char>, Tree)>),
}

impl Node {
    /// The tree that the node stands for.
    pub open spec fn tree(self) -> Tree
        decreases self,
    {
        match self {
            Node::Null => Tree::Null,
            Node::Flag(flag) => Tree::Flag(flag),
            Node::Number(digits) => Tree::Number(digits@),
            Node::Text(text) => Tree::Text(text@),
            Node::List(items) => Tree::List(
                Seq::new(
                    items@.len(),
                    |i: int|
                        if 0 <= i < items@.len() {
                            items@[i].tree()
                        } else {
                            Tree::Null
                        },
                ),
            ),
            Node::Table(entries) => Tree::Table(
                Seq::new(
                    entries@.len(),
                    |i: int|
                        if 0 <= i < entries@.len() {
                            (entries@[i].0@, entries@[i].1.tree())
                        } else {
                            (Seq::empty(), Tree::Null)
                        },
                ),
            ),
        }
    }
}

impl View for Node {
    type V = Tree;

    open spec fn view(&self) -> Tree {
        self.tree()
    }
}

impl Tree {
    /// The value that a table holds under a key, where it holds exactly one.
    pub open spec fn member(self, key: Seq<char>) -> Option<Tree> {
        match self {
            Tree::Table(entries) => if field_values(entries, key, key).len() == 1 {
                Some(field_values(entries, key, key)[0])
            } else {
                None
            },
            _ => None,
        }
    }

    /// No two entries of the table have the same key.
    pub open spec fn distinct_keys(entries: Seq<(Seq<char>, Tree)>) -> bool {
        forall|i: int, j: int|
            0 <= i < j < entries.len() ==> (#[trigger] entries[i]).0 != (#[trigger] entries[j]).0
    }

    /// The tree can be written out as it stands: it holds no number, and no table in it
    /// has a key twice.
    pub open spec fn writable(self) -> bool
        decreases self,
    {
        match self {
            Tree::Null => true,
            Tree::Flag(_) => true,
            Tree::Number(_) => false,
            Tree::Text(_) => true,
            Tree::List(items) => forall|i: int|
                0 <= i < items.len() ==> (#[trigger] items[i]).writable(),
            Tree::Table(entries) => Tree::distinct_keys(entries) && forall|i: int|
                0 <= i < entries.len() ==> (#[trigger] entries[i]).1.writable(),
        }
    }
}

/// The values of the entries whose key is one of two names, in the order of the table.
pub open spec fn field_values(
    entries: Seq<(Seq<char>, Tree)>,
    name: Seq<char>,
    alias: Seq<char>,
) -> Seq<Tree>
    decreases entries.len(),
{
    if entries.len() == 0 {
        Seq::empty()
    } else {
        let before = field_values(entries.drop_last(), name, alias);
        if entries.last().0 == name || entries.last().0 == alias {
            before.push(entries.last().1)
        } else {
            before
        }
    }
}

/// What the entries of a table stand for.
pub open spec fn entries_model(entries: Seq<(String, Node)>) -> Seq<(Seq<char>, Tree)> {
    Seq::new(entries.len(), |i: int| (entries[i].0@, entries[i].1@))
}

/// What the items of a list stand for.
pub open spec fn items_model(items: Seq<Node>) -> Seq<Tree> {
    Seq::new(items.len(), |i: int| items[i]@)
}

/// The view of a table is the table of its entries' views.
pub proof fn lemma_table_view(entries: Vec<(String, Node)>)
    ensures
        Node::Table(entries)@ == Tree::Table(entries_model(entries@)),
{
    assert(Node::Table(entries).tree()->Table_0 =~= entries_model(entries@));
}

/// The view of a list is the list of its items' views.
pub proof fn lemma_list_view(items: Vec<Node>)
    ensures
        Node::List(items)@ == Tree::List(items_model(items@)),
{
    assert(Node::List(items).tree()->List_0 =~= items_model(items@));
}

/// Where a field stands in a table.
pub(crate) enum Found {
    Absent,
    Once(usize),
    Repeated,
}

/// Looks a field up by its name and its alias.
pub(crate) fn find_field(entries: &Vec<(String, Node)>, name: &str, alias: &str) -> (found: Found)
    ensures
        match found {
            Found::Absent => field_values(entries_model(entries@), name@, alias@).len() == 0,
            Found::Once(at) => at < entries@.len() && field_values(
                entries_model(entries@),
                name@,
                alias@,
            ) == seq![entries@[at as int].1@],
            Found::Repeated => field_values(entries_model(entries@), name@, alias@).len() > 1,
        },
{
    let ghost all = entries_model(entries@);
    let mut found = Found::Absent;
    let mut i: usize = 0;
    assert(all.take(0) =~= Seq::empty());
    while i < entries.len()
        invariant
            i <= entries@.len(),
            all == entries_model(entries@),
            match found {
                Found::Absent => field_values(all.take(i as int), name@, alias@).len() == 0,
                Found::Once(at) => at < i && field_values(all.take(i as int), name@, alias@)
                    == seq![entries@[at as int].1@],
                Found::Repeated => field_values(all.take(i as int), name@, alias@).len() > 1,
            },
        decreases entries@.len() - i,
    {
        let key = entries[i].0.as_str();
        proof {
            let now = all.take(i + 1);
            assert(now.drop_last() =~= all.take(i as int));
            assert(now.last() == all[i as int]);
        }
        if text_eq(key, name) || text_eq(key, alias) {
            found = match found {
                Found::Absent => Found::Once(i),
                _ => Found::Repeated,
            };
        }
        i += 1;
    }
    assert(all.take(i as int) =~= all);
    found
}

/// The fields of a table that is put together from two are those of the first, then
/// those of the second.
pub proof fn lemma_field_values_concat(
    first: Seq<(Seq<char>, Tree)>,
    second: Seq<(Seq<char>, Tree)>,
    name: Seq<char>,
    alias: Seq<char>,
)
    ensures
        field_values(first + second, name, alias) == field_values(first, name, alias)
            + field_values(second, name, alias),
    decreases second.len(),
{
    if second.len() == 0 {
        assert(first + second =~= first);
        assert(field_values(first, name, alias) + Seq::<Tree>::empty() =~= field_values(
            first,
            name,
            alias,
        ));
    } else {
        lemma_field_values_concat(first, second.drop_last(), name, alias);
        assert((first + second).drop_last() =~= first + second.drop_last());
        assert(field_values(first + second, name, alias) =~= field_values(first, name, alias)
            + field_values(second, name, alias));
    }
}

/// The fields of a table of one entry.
pub proof fn lemma_field_values_single(entry: (Seq<char>, Tree), name: Seq<char>, alias: Seq<char>)
    ensures
        field_values(seq![entry], name, alias) == if entry.0 == name || entry.0 == alias {
            seq![entry.1]
        } else {
            Seq::empty()
        },
{
    reveal_with_fuel(field_values, 2);
    assert(seq![entry].drop_last() =~= Seq::empty());
    assert(seq![entry].last() == entry);
    assert(field_values(seq![entry], name, alias) =~= if entry.0 == name || entry.0 == alias {
        seq![entry.1]
    } else {
        Seq::empty()
    });
}

/// `serde_json::Value`: what `serde_json` and `serde_yaml` read a text into and write
/// a text from. Nothing is seen of it here but through the functions below.
#[verifier::external_type_specification]
#[verifier::external_body]
pub struct ExJsonValue(serde_json::Value);

/// The tree that a `serde_json::Value` holds.
pub uninterp spec fn value_tree(value: serde_json::Value) -> Tree;

/// The tree that `serde_json` reads from a JSON text, if it reads one.
pub uninterp spec fn json_document(text: Seq<char>) -> Option<Tree>;

/// The tree that `serde_yaml` reads from a YAML text, if it reads one.
pub uninterp spec fn yaml_document(text: Seq<char>) -> Option<Tree>;

/// The compact JSON text in which `serde_json` writes a tree.
pub uninterp spec fn json_text(tree: Tree) -> Seq<char>;

/// The YAML text in which `serde_yaml` writes a tree, if it writes it.
pub uninterp spec fn yaml_text(tree: Tree) -> Option<Seq<char>>;

/// Calls `serde_json::from_str` for a `serde_json::Value`. The value read, or the
/// failure to read one, depends on the text alone.
#[verifier::external_body]
pub(crate) fn read_json(text: &str) -> (read: Option<serde_json::Value>)
    ensures
        json_document(text@) == match read {
            Some(value) => Some(value_tree(value)),
            None => None,
        },
{
    serde_json::from_str::<serde_json::Value>(text).ok()
}

/// Calls `serde_yaml::from_str` for a `serde_json::Value`. The value read, or the
/// failure to read one, depends on the text alone.
#[verifier::external_body]
pub(crate) fn read_yaml(text: &str) -> (read: Option<serde_json::Value>)
    ensures
        yaml_document(text@) == match read {
            Some(value) => Some(value_tree(value)),
            None => None,
        },
{
    serde_yaml::from_str::<serde_json::Value>(text).ok()
}

/// Moves a `serde_json::Value` into a `Node`, variant by variant: a number becomes the
/// text that `serde_json` displays it with, an object's entries keep the order in which
/// the object holds them (`serde_json` is built to preserve it).
#[verifier::external_body]
pub(crate) fn node_of_value(value: serde_json::Value) -> (node: Node)
    ensures
        node@ == value_tree(value),
{
    match value {
        serde_json::Value::Null => Node::Null,
        serde_json::Value::Bool(flag) => Node::Flag(flag),
        serde_json::Value::Number(number) => Node::Number(number.to_string()),
        serde_json::Value::String(text) => Node::Text(text),
        serde_json::Value::Array(items) => Node::List(
            items.into_iter().map(node_of_value).collect(),
        ),
        serde_json::Value::Object(entries) => Node::Table(
            entries.into_iter().map(|(key, item)| (key, node_of_value(item))).collect(),
        ),
    }
}

/// Builds the `serde_json::Value` of a `Node`, variant by variant. An object keeps one
/// entry for each key, so the tree comes out unchanged only where no key repeats; a
/// number has no variant to go to here and is left out by the precondition.
#[verifier::external_body]
pub(crate) fn value_of_node(node: &Node) -> (value: serde_json::Value)
    requires
        node@.writable(),
    ensures
        value_tree(value) == node@,
{
    match node {
        Node::Flag(flag) => serde_json::Value::Bool(*flag),
        Node::Text(text) => serde_json::Value::String(text.clone()),
        Node::List(items) => serde_json::Value::Array(items.iter().map(value_of_node).collect()),
        Node::Table(entries) => serde_json::Value::Object(
            entries.iter().map(|(key, item)| (key.clone(), value_of_node(item))).collect(),
        ),
        _ => serde_json::Value::Null,
    }
}

/// Calls the `Display` of `serde_json::Value`, which writes compact JSON. The text
/// depends on the value's tree alone.
#[verifier::external_body]
pub(crate) fn write_json(value: &serde_json::Value) -> (text: String)
    ensures
        text@ == json_text(value_tree(*value)),
{
    value.to_string()
}

/// Calls `serde_yaml::to_string`. The text, or the failure to write one, depends on the
/// value's tree alone.
#[verifier::external_body]
pub(crate) fn write_yaml(value: &serde_json::Value) -> (text: Option<String>)
    ensures
        yaml_text(value_tree(*value)) == match text {
            Some(written) => Some(written@),
            None => None,
        },
{
    serde_yaml::to_string(value).ok()
}

impl Node {
    /// Looks up the value that a table holds under a key.
    pub fn member(&self, key: &str) -> (found: Option<&Node>)
        ensures
            self@.member(key@) == match found {
                Some(value) => Some(value@),
                None => None,
            },
    {
        match self {
            Node::Table(entries) => {
                proof {
                    lemma_table_view(*entries);
                }
                match find_field(entries, key, key) {
                    Found::Once(at) => Some(&entries[at].1),
                    _ => None,
                }
            },
            _ => None,
        }
    }

    /// Reads a JSON text.
    pub fn from_json(text: &str) -> (read: Option<Node>)
        ensures
            json_document(text@) == match read {
                Some(node) => Some(node@),
                None => None,
            },
    {
        match read_json(text) {
            Some(value) => Some(node_of_value(value)),
            None => None,
        }
    }

    /// Reads a YAML text.
    pub fn from_yaml(text: &str) -> (read: Option<Node>)
        ensures
            yaml_document(text@) == match read {
                Some(node) => Some(node@),
                None => None,
            },
    {
        match read_yaml(text) {
            Some(value) => Some(node_of_value(value)),
            None => None,
        }
    }

    /// Writes the node as compact JSON.
    pub(crate) fn to_json(&self) -> (text: String)
        requires
            self@.writable(),
        ensures
            text@ == json_text(self@),
    {
        write_json(&value_of_node(self))
    }

    /// Writes the node as YAML.
    pub(crate) fn to_yaml(&self) -> (text: Option<String>)
        requires
            self@.writable(),
        ensures
            yaml_text(self@) == match text {
                Some(written) => Some(written@),
                None => None,
            },
    {
        write_yaml(&value_of_node(self))
    }
}

} // verus!
