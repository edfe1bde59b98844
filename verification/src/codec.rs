use vstd::prelude::*;
use crate::document::{
    entries_model, field_values, find_field, items_model, json_text, lemma_field_values_concat,
    lemma_field_values_single, lemma_list_view, lemma_table_view, yaml_document, yaml_text, Found,
    Node, Tree,
};
use crate::error::{Input, Reason, ReasonModel, TokenError, TokenErrorModel};
use crate::permissions::{texts, Permissions, PermissionsModel};
use crate::scope::{Privileges, Scope, SCOPE_COUNT};

verus! {

/// The texts of a list whose items are all texts.
pub open spec fn text_items(items: Seq<Tree>) -> Result<Seq<Seq<char>>, ReasonModel> {
    if forall|i: int| 0 <= i < items.len() ==> (#[trigger] items[i]) is Text {
        Ok(Seq::new(items.len(), |i: int| items[i]->Text_0))
    } else {
        Err(ReasonModel::Malformed)
    }
}

/// The repository identifiers that the values of the repositories field give.
pub open spec fn repositories_of(values: Seq<Tree>) -> Result<Seq<Seq<char>>, ReasonModel> {
    if values.len() == 0 {
        Ok(Seq::empty())
    } else if values.len() > 1 {
        Err(ReasonModel::Malformed)
    } else {
        match values[0] {
            Tree::Null => Ok(Seq::empty()),
            Tree::List(items) => text_items(items),
            _ => Err(ReasonModel::Malformed),
        }
    }
}

/// The scope and privilege that one entry of the scopes table names.
pub open spec fn pair_of(entry: (Seq<char>, Tree)) -> Result<(Scope, Privileges), ReasonModel> {
    match Scope::of_token(entry.0) {
        None => Err(ReasonModel::UnknownScope(entry.0)),
        Some(scope) => match entry.1 {
            Tree::Text(word) => match Privileges::of_token(word) {
                None => Err(ReasonModel::UnknownPrivilege(word)),
                Some(privilege) => Ok((scope, privilege)),
            },
            _ => Err(ReasonModel::Malformed),
        },
    }
}

/// The pairs that the entries of the scopes table name, or what is wrong with the first
/// entry that names none.
pub open spec fn pairs_of(entries: Seq<(Seq<char>, Tree)>) -> Result<
    Seq<(Scope, Privileges)>,
    ReasonModel,
>
    decreases entries.len(),
{
    if entries.len() == 0 {
        Ok(Seq::empty())
    } else {
        match pairs_of(entries.drop_last()) {
            Err(reason) => Err(reason),
            Ok(before) => match pair_of(entries.last()) {
                Err(reason) => Err(reason),
                Ok(pair) => Ok(before.push(pair)),
            },
        }
    }
}

/// The pairs that the values of the scopes field give.
pub open spec fn scopes_of(values: Seq<Tree>) -> Result<Seq<(Scope, Privileges)>, ReasonModel> {
    if values.len() == 0 {
        Ok(Seq::empty())
    } else if values.len() > 1 {
        Err(ReasonModel::Malformed)
    } else {
        match values[0] {
            Tree::Null => Ok(Seq::empty()),
            Tree::Table(entries) => pairs_of(entries),
            _ => Err(ReasonModel::Malformed),
        }
    }
}

impl PermissionsModel {
    /// The entries of the scopes table for the scopes of a rank below `upto`, by rank.
    pub open spec fn scope_entries(self, upto: nat) -> Seq<(Seq<char>, Tree)>
        decreases upto,
    {
        if upto == 0 {
            Seq::empty()
        } else {
            let before = self.scope_entries((upto - 1) as nat);
            match Scope::of_rank((upto - 1) as nat) {
                Some(scope) => if self.scopes.contains_key(scope) {
                    before.push((scope.token(), Tree::Text(self.scopes[scope].token())))
                } else {
                    before
                },
                None => before,
            }
        }
    }

    /// The scopes that are held, of a rank below `upto`, each with its privilege, by rank.
    pub open spec fn scope_pairs(self, upto: nat) -> Seq<(Scope, Privileges)>
        decreases upto,
    {
        if upto == 0 {
            Seq::empty()
        } else {
            let before = self.scope_pairs((upto - 1) as nat);
            match Scope::of_rank((upto - 1) as nat) {
                Some(scope) => if self.scopes.contains_key(scope) {
                    before.push((scope, self.scopes[scope]))
                } else {
                    before
                },
                None => before,
            }
        }
    }

    /// The repositories field of the document: left out where there is no repository.
    pub open spec fn repository_field(self) -> Seq<(Seq<char>, Tree)> {
        if self.repositories.len() == 0 {
            Seq::empty()
        } else {
            seq![
                (
                    "repositories"@,
                    Tree::List(
                        self.repositories.map_values(|identifier: Seq<char>| Tree::Text(identifier)),
                    ),
                ),
            ]
        }
    }

    /// The scopes field of the document, always under the name `permissions`: left out
    /// where there is no scope.
    pub open spec fn scope_field(self) -> Seq<(Seq<char>, Tree)> {
        if self.scope_entries(SCOPE_COUNT as nat).len() == 0 {
            Seq::empty()
        } else {
            seq![("permissions"@, Tree::Table(self.scope_entries(SCOPE_COUNT as nat)))]
        }
    }

    /// The document that is written for the permissions, as YAML and as the body of the
    /// token request alike.
    pub open spec fn document(self) -> Tree {
        Tree::Table(self.repository_field() + self.scope_field())
    }

    /// The permissions that a document gives, or why it gives none. The scopes table is
    /// taken under the name `permissions` and under the name `scopes`; a field that is
    /// there twice, under whatever name, is a fault; other fields are passed over.
    pub open spec fn of_document(tree: Tree) -> Result<PermissionsModel, ReasonModel> {
        match tree {
            Tree::Table(entries) => match repositories_of(
                field_values(entries, "repositories"@, "repositories"@),
            ) {
                Err(reason) => Err(reason),
                Ok(identifiers) => match scopes_of(
                    field_values(entries, "permissions"@, "scopes"@),
                ) {
                    Err(reason) => Err(reason),
                    Ok(pairs) => Ok(
                        PermissionsModel::empty().add_repositories(identifiers).add_scopes(pairs),
                    ),
                },
            },
            _ => Err(ReasonModel::Malformed),
        }
    }
}

/// The permissions that a YAML text gives, or the error that it is refused with.
pub open spec fn permissions_of_yaml(text: Seq<char>) -> Result<PermissionsModel, TokenErrorModel> {
    match yaml_document(text) {
        None => Err(TokenErrorModel::InvalidInput(Input::Permissions, ReasonModel::Unreadable)),
        Some(tree) => match PermissionsModel::of_document(tree) {
            Ok(permissions) => Ok(permissions),
            Err(reason) => Err(TokenErrorModel::InvalidInput(Input::Permissions, reason)),
        },
    }
}

/// Reads the repository identifiers off the value of the repositories field.
fn read_repositories(value: &Node) -> (read: Result<Vec<String>, Reason>)
    ensures
        match read {
            Ok(identifiers) => repositories_of(seq![value@]) == Ok::<_, ReasonModel>(
                texts(identifiers@),
            ),
            Err(reason) => repositories_of(seq![value@]) == Err::<Seq<Seq<char>>, _>(reason@),
        },
{
    match value {
        Node::Null => {
            let identifiers: Vec<String> = Vec::new();
            assert(texts(identifiers@) =~= Seq::empty());
            Ok(identifiers)
        },
        Node::List(items) => {
            proof {
                lemma_list_view(*items);
            }
            let ghost trees = items_model(items@);
            let mut identifiers: Vec<String> = Vec::new();
            let mut i: usize = 0;
            while i < items.len()
                invariant
                    i <= items@.len(),
                    trees == items_model(items@),
                    value@ == Tree::List(trees),
                    identifiers@.len() == i,
                    forall|k: int| 0 <= k < i ==> (#[trigger] trees[k]) == Tree::Text(
                        identifiers@[k]@,
                    ),
                decreases items@.len() - i,
            {
                match &items[i] {
                    Node::Text(identifier) => {
                        identifiers.push(identifier.clone());
                    },
                    _ => {
                        assert(!(trees[i as int] is Text));
                        return Err(Reason::Malformed);
                    },
                }
                i += 1;
            }
            assert(text_items(trees) == Ok::<_, ReasonModel>(texts(identifiers@))) by {
                assert(text_items(trees)->Ok_0 =~= texts(identifiers@));
            }
            Ok(identifiers)
        },
        _ => Err(Reason::Malformed),
    }
}

/// Reads the scope and privilege that one entry of the scopes table names.
fn read_pair(key: &String, value: &Node) -> (read: Result<(Scope, Privileges), Reason>)
    ensures
        match read {
            Ok(pair) => pair_of((key@, value@)) == Ok::<_, ReasonModel>(pair),
            Err(reason) => pair_of((key@, value@)) == Err::<(Scope, Privileges), _>(reason@),
        },
{
    match Scope::from_token(key.as_str()) {
        None => Err(Reason::UnknownScope(key.clone())),
        Some(scope) => match value {
            Node::Text(word) => match Privileges::from_token(word.as_str()) {
                None => Err(Reason::UnknownPrivilege(word.clone())),
                Some(privilege) => Ok((scope, privilege)),
            },
            _ => Err(Reason::Malformed),
        },
    }
}

/// Reads the pairs off the value of the scopes field.
fn read_scopes(value: &Node) -> (read: Result<Vec<(Scope, Privileges)>, Reason>)
    ensures
        match read {
            Ok(pairs) => scopes_of(seq![value@]) == Ok::<_, ReasonModel>(pairs@),
            Err(reason) => scopes_of(seq![value@]) == Err::<Seq<(Scope, Privileges)>, _>(
                reason@,
            ),
        },
{
    match value {
        Node::Null => Ok(Vec::new()),
        Node::Table(entries) => {
            proof {
                lemma_table_view(*entries);
            }
            let ghost all = entries_model(entries@);
            let mut pairs: Vec<(Scope, Privileges)> = Vec::new();
            let mut i: usize = 0;
            assert(all.take(0) =~= Seq::empty());
            while i < entries.len()
                invariant
                    i <= entries@.len(),
                    all == entries_model(entries@),
                    value@ == Tree::Table(all),
                    pairs_of(all.take(i as int)) == Ok::<_, ReasonModel>(pairs@),
                decreases entries@.len() - i,
            {
                proof {
                    let now = all.take(i + 1);
                    assert(now.drop_last() =~= all.take(i as int));
                    assert(now.last() == all[i as int]);
                    lemma_pairs_fail_on(all, i + 1);
                }
                match read_pair(&entries[i].0, &entries[i].1) {
                    Ok(pair) => {
                        pairs.push(pair);
                    },
                    Err(reason) => {
                        return Err(reason);
                    },
                }
                i += 1;
            }
            assert(all.take(i as int) =~= all);
            Ok(pairs)
        },
        _ => Err(Reason::Malformed),
    }
}

/// The entries up to one that names no scope are refused; where those before it are in
/// order, the fault is that of the entry.
pub proof fn lemma_pairs_until_fault(entries: Seq<(Seq<char>, Tree)>, at: int)
    requires
        0 <= at < entries.len(),
        pair_of(entries[at]) is Err,
    ensures
        pairs_of(entries.take(at + 1)) is Err,
        (forall|i: int| 0 <= i < at ==> pair_of(#[trigger] entries[i]) is Ok) ==> pairs_of(
            entries.take(at + 1),
        ) == Err::<Seq<(Scope, Privileges)>, _>(pair_of(entries[at])->Err_0),
{
    let upto = entries.take(at + 1);
    assert(upto.last() == entries[at]);
    assert(upto.drop_last() =~= entries.take(at));
    if forall|i: int| 0 <= i < at ==> pair_of(#[trigger] entries[i]) is Ok {
        lemma_pairs_in_order(entries, at);
    }
}

/// Entries that each name a scope and a privilege are read.
pub proof fn lemma_pairs_in_order(entries: Seq<(Seq<char>, Tree)>, upto: int)
    requires
        0 <= upto <= entries.len(),
        forall|i: int| 0 <= i < upto ==> pair_of(#[trigger] entries[i]) is Ok,
    ensures
        pairs_of(entries.take(upto)) is Ok,
    decreases upto,
{
    if upto > 0 {
        lemma_pairs_in_order(entries, upto - 1);
        assert(entries.take(upto).drop_last() =~= entries.take(upto - 1));
        assert(entries.take(upto).last() == entries[upto - 1]);
    }
}

/// A fault among the first entries of a scopes table is the fault of the whole table.
pub proof fn lemma_pairs_fail_on(entries: Seq<(Seq<char>, Tree)>, upto: int)
    requires
        0 <= upto <= entries.len(),
    ensures
        pairs_of(entries.take(upto)) is Err ==> pairs_of(entries) == pairs_of(entries.take(upto)),
    decreases entries.len() - upto,
{
    if upto < entries.len() {
        lemma_pairs_fail_on(entries, upto + 1);
        assert(entries.take(upto + 1).drop_last() =~= entries.take(upto));
    } else {
        assert(entries.take(upto) =~= entries);
    }
}

impl Permissions {
    /// Reads permissions off a document.
    pub fn from_document(node: &Node) -> (read: Result<Permissions, Reason>)
        ensures
            match read {
                Ok(permissions) => PermissionsModel::of_document(node@) == Ok::<_, ReasonModel>(
                    permissions@,
                ),
                Err(reason) => PermissionsModel::of_document(node@) == Err::<PermissionsModel, _>(
                    reason@,
                ),
            },
    {
        match node {
            Node::Table(entries) => {
                proof {
                    lemma_table_view(*entries);
                }
                let identifiers = match find_field(entries, "repositories", "repositories") {
                    Found::Absent => Vec::new(),
                    Found::Once(at) => match read_repositories(&entries[at].1) {
                        Ok(identifiers) => identifiers,
                        Err(reason) => {
                            return Err(reason);
                        },
                    },
                    Found::Repeated => {
                        return Err(Reason::Malformed);
                    },
                };
                assert(repositories_of(
                    field_values(entries_model(entries@), "repositories"@, "repositories"@),
                ) == Ok::<_, ReasonModel>(texts(identifiers@))) by {
                    assert(texts(Seq::<String>::empty()) =~= Seq::empty());
                }
                let pairs = match find_field(entries, "permissions", "scopes") {
                    Found::Absent => Vec::new(),
                    Found::Once(at) => match read_scopes(&entries[at].1) {
                        Ok(pairs) => pairs,
                        Err(reason) => {
                            return Err(reason);
                        },
                    },
                    Found::Repeated => {
                        return Err(Reason::Malformed);
                    },
                };
                Ok(
                    Permissions::new().with_repositories(identifiers.as_slice()).with_scopes(
                        pairs.as_slice(),
                    ),
                )
            },
            _ => Err(Reason::Malformed),
        }
    }
}

impl Permissions {
    /// Writes the permissions as a document. The document can be written out as text,
    /// and reading it gives the permissions again.
    pub fn to_document(&self) -> (node: Node)
        ensures
            node@ == self@.document(),
            node@.writable(),
            PermissionsModel::of_document(node@) == Ok::<_, ReasonModel>(self@),
    {
        proof {
            use_type_invariant(self);
            self.lemma_view_valid();
            self@.lemma_document_round_trip();
        }
        let mut fields: Vec<(String, Node)> = Vec::new();
        let repositories = self.repositories();
        if repositories.len() > 0 {
            let mut items: Vec<Node> = Vec::new();
            let mut i: usize = 0;
            while i < repositories.len()
                invariant
                    i <= repositories@.len(),
                    items@.len() == i,
                    forall|k: int|
                        0 <= k < i ==> (#[trigger] items@[k])@ == Tree::Text(repositories@[k]@),
                decreases repositories@.len() - i,
            {
                items.push(Node::Text(repositories[i].clone()));
                i += 1;
            }
            proof {
                lemma_list_view(items);
                assert(items_model(items@) =~= self@.repositories.map_values(
                    |identifier: Seq<char>| Tree::Text(identifier),
                ));
            }
            fields.push(("repositories".to_owned(), Node::List(items)));
        }
        assert(entries_model(fields@) =~= self@.repository_field());
        let mut entries: Vec<(String, Node)> = Vec::new();
        let mut rank: u8 = 0;
        assert(entries_model(entries@) =~= self@.scope_entries(0));
        while rank < SCOPE_COUNT
            invariant
                rank <= SCOPE_COUNT,
                entries_model(entries@) == self@.scope_entries(rank as nat),
            decreases SCOPE_COUNT - rank,
        {
            match Scope::from_ordinal(rank) {
                Some(scope) => match self.privilege(scope) {
                    Some(privilege) => {
                        let ghost before = entries@;
                        entries.push(
                            (scope.as_str().to_owned(), Node::Text(privilege.as_str().to_owned())),
                        );
                        assert(entries_model(entries@) =~= entries_model(before).push(
                            (scope.token(), Tree::Text(privilege.token())),
                        ));
                    },
                    None => {},
                },
                None => {},
            }
            rank += 1;
        }
        if entries.len() > 0 {
            proof {
                lemma_table_view(entries);
            }
            let ghost before = fields@;
            fields.push(("permissions".to_owned(), Node::Table(entries)));
            assert(entries_model(fields@) =~= entries_model(before).push(
                ("permissions"@, Tree::Table(self@.scope_entries(SCOPE_COUNT as nat))),
            ));
        }
        proof {
            assert(entries_model(fields@) =~= self@.repository_field() + self@.scope_field());
            lemma_table_view(fields);
            self@.lemma_document_writable();
        }
        Node::Table(fields)
    }

    /// Reads permissions off a YAML text.
    pub fn from_yaml(text: &str) -> (read: Result<Permissions, TokenError>)
        ensures
            match read {
                Ok(permissions) => permissions_of_yaml(text@) == Ok::<_, TokenErrorModel>(
                    permissions@,
                ),
                Err(error) => permissions_of_yaml(text@) == Err::<PermissionsModel, _>(error@),
            },
    {
        match Node::from_yaml(text) {
            None => Err(TokenError::InvalidInput(Input::Permissions, Reason::Unreadable)),
            Some(node) => match Permissions::from_document(&node) {
                Ok(permissions) => Ok(permissions),
                Err(reason) => Err(TokenError::InvalidInput(Input::Permissions, reason)),
            },
        }
    }

    /// Writes the permissions as YAML.
    pub fn to_yaml(&self) -> (text: Option<String>)
        ensures
            yaml_text(self@.document()) == match text {
                Some(written) => Some(written@),
                None => None,
            },
    {
        self.to_document().to_yaml()
    }

    /// Writes the permissions as compact JSON.
    pub fn to_json(&self) -> (text: String)
        ensures
            text@ == json_text(self@.document()),
    {
        self.to_document().to_json()
    }
}

/// The three names under which fields are looked for differ from each other.
pub proof fn lemma_field_names()
    ensures
        "repositories"@.len() == 12,
        "permissions"@.len() == 11,
        "scopes"@.len() == 6,
{
    reveal_strlit("repositories");
    reveal_strlit("permissions");
    reveal_strlit("scopes");
}

impl PermissionsModel {
    /// The entries of the scopes table are the held scopes by rising rank, each under its
    /// token and with its privilege's token.
    pub proof fn lemma_scope_entries(self, upto: nat)
        ensures
            self.scope_entries(upto).len() == self.scope_pairs(upto).len(),
            forall|i: int|
                0 <= i < self.scope_pairs(upto).len() ==> {
                    let pair = #[trigger] self.scope_pairs(upto)[i];
                    &&& pair.0.rank() < upto
                    &&& self.scopes.contains_key(pair.0)
                    &&& pair.1 == self.scopes[pair.0]
                    &&& self.scope_entries(upto)[i] == (pair.0.token(), Tree::Text(pair.1.token()))
                },
            forall|i: int, j: int|
                0 <= i < j < self.scope_pairs(upto).len() ==> (#[trigger] self.scope_pairs(
                    upto,
                )[i]).0.rank() < (#[trigger] self.scope_pairs(upto)[j]).0.rank(),
            forall|scope: Scope|
                self.scopes.contains_key(scope) && scope.rank() < upto ==> exists|i: int|
                    0 <= i < self.scope_pairs(upto).len() && (#[trigger] self.scope_pairs(
                        upto,
                    )[i]).0 == scope,
        decreases upto,
    {
        if upto > 0 {
            let below = (upto - 1) as nat;
            self.lemma_scope_entries(below);
            let before = self.scope_pairs(below);
            let now = self.scope_pairs(upto);
            match Scope::of_rank(below) {
                Some(added) => {
                    Scope::lemma_of_rank_exact(below, added);
                },
                None => {},
            }
            assert forall|scope: Scope|
                self.scopes.contains_key(scope) && scope.rank() < upto implies exists|i: int|
                0 <= i < now.len() && (#[trigger] now[i]).0 == scope by {
                if scope.rank() < below {
                    let i = choose|i: int| 0 <= i < before.len() && (#[trigger] before[i]).0 == scope;
                    assert(now[i] == before[i]);
                } else {
                    Scope::lemma_of_rank_exact(below, scope);
                    assert(now[now.len() - 1].0 == scope);
                }
            }
        }
    }

    /// The document can be written out: it holds texts alone, and no key twice.
    pub proof fn lemma_document_writable(self)
        ensures
            self.document().writable(),
    {
        lemma_field_names();
        let count = SCOPE_COUNT as nat;
        self.lemma_scope_entries(count);
        let entries = self.scope_entries(count);
        let pairs = self.scope_pairs(count);
        assert(Tree::distinct_keys(entries)) by {
            assert forall|i: int, j: int| 0 <= i < j < entries.len() implies (
            #[trigger] entries[i]).0 != (#[trigger] entries[j]).0 by {
                pairs[i].0.lemma_token_round_trip();
                pairs[j].0.lemma_token_round_trip();
                Scope::lemma_rank_injective(pairs[i].0, pairs[j].0);
            }
        }
        assert(Tree::Table(entries).writable()) by {
            assert forall|i: int| 0 <= i < entries.len() implies (#[trigger] entries[i]).1.writable() by {
                assert(entries[i].1 == Tree::Text(pairs[i].1.token()));
            }
        }
        let items = self.repositories.map_values(|identifier: Seq<char>| Tree::Text(identifier));
        assert(Tree::List(items).writable()) by {
            assert forall|i: int| 0 <= i < items.len() implies (#[trigger] items[i]).writable() by {
                assert(items[i] == Tree::Text(self.repositories[i]));
            }
        }
        let fields = self.repository_field() + self.scope_field();
        assert(Tree::distinct_keys(fields)) by {
            assert forall|i: int, j: int| 0 <= i < j < fields.len() implies (
            #[trigger] fields[i]).0 != (#[trigger] fields[j]).0 by {
                assert(fields[i].0 == "repositories"@);
                assert(fields[j].0 == "permissions"@);
            }
        }
        assert forall|i: int| 0 <= i < fields.len() implies (#[trigger] fields[i]).1.writable() by {
            if self.repository_field().len() > 0 && i == 0 {
                assert(fields[i].1 == Tree::List(items));
            } else {
                assert(fields[i].1 == Tree::Table(entries));
            }
        }
    }

    /// The document holds the scopes under the name `permissions`, and never under the
    /// name `scopes`.
    pub proof fn lemma_document_names(self)
        ensures
            self.document() is Table,
            forall|i: int|
                0 <= i < self.document()->Table_0.len() ==> {
                    let key = (#[trigger] self.document()->Table_0[i]).0;
                    (key == "repositories"@ || key == "permissions"@) && key != "scopes"@
                },
            self.repositories.len() == 0 && self.scopes.dom() =~= Set::empty()
                ==> self.document() == Tree::Table(Seq::empty()),
    {
        lemma_field_names();
        let count = SCOPE_COUNT as nat;
        self.lemma_scope_entries(count);
        let fields = self.repository_field() + self.scope_field();
        assert forall|i: int| 0 <= i < fields.len() implies {
            let key = (#[trigger] fields[i]).0;
            (key == "repositories"@ || key == "permissions"@) && key != "scopes"@
        } by {
            if self.repository_field().len() > 0 && i == 0 {
                assert(fields[i].0 == "repositories"@);
            } else {
                assert(fields[i].0 == "permissions"@);
            }
        }
        if self.repositories.len() == 0 && self.scopes.dom() =~= Set::empty() {
            if self.scope_pairs(count).len() > 0 {
                assert(self.scopes.contains_key(self.scope_pairs(count)[0].0));
            }
            assert(self.repository_field() + self.scope_field() =~= Seq::empty());
        }
    }

    /// A field is left out of the document exactly where there is nothing to write in
    /// it: the repositories where there is none, the scopes where none is held.
    pub proof fn lemma_fields_left_out(self)
        ensures
            self.repository_field().len() == 0 <==> self.repositories.len() == 0,
            self.scope_field().len() == 0 <==> forall|scope: Scope|
                !self.scopes.contains_key(scope),
            self.repository_field().len() <= 1,
            self.scope_field().len() <= 1,
    {
        let count = SCOPE_COUNT as nat;
        self.lemma_scope_entries(count);
        if self.scope_pairs(count).len() > 0 {
            assert(self.scopes.contains_key(self.scope_pairs(count)[0].0));
        } else {
            assert forall|scope: Scope| !self.scopes.contains_key(scope) by {
                Scope::lemma_rank_injective(scope, scope);
            }
        }
    }

    /// A document whose scopes table names a scope outside the closed set gives no
    /// permissions: the key is neither passed over nor taken for another scope. Where the
    /// repositories are in order and the entries before it name scopes and privileges,
    /// the error names that key.
    pub proof fn lemma_unknown_scope_is_refused(
        fields: Seq<(Seq<char>, Tree)>,
        entries: Seq<(Seq<char>, Tree)>,
        at: int,
    )
        requires
            field_values(fields, "permissions"@, "scopes"@) == seq![Tree::Table(entries)],
            0 <= at < entries.len(),
            Scope::of_token(entries[at].0) is None,
        ensures
            PermissionsModel::of_document(Tree::Table(fields)) is Err,
            repositories_of(field_values(fields, "repositories"@, "repositories"@)) is Ok && (
            forall|i: int| 0 <= i < at ==> pair_of(#[trigger] entries[i]) is Ok)
                ==> PermissionsModel::of_document(Tree::Table(fields)) == Err::<
                PermissionsModel,
                _,
            >(ReasonModel::UnknownScope(entries[at].0)),
    {
        lemma_pairs_until_fault(entries, at);
        lemma_pairs_fail_on(entries, at + 1);
    }

    /// What is read back from the scopes table is what was written.
    pub proof fn lemma_scope_entries_read_back(self, upto: nat)
        ensures
            pairs_of(self.scope_entries(upto)) == Ok::<_, ReasonModel>(self.scope_pairs(upto)),
        decreases upto,
    {
        if upto > 0 {
            let below = (upto - 1) as nat;
            self.lemma_scope_entries_read_back(below);
            match Scope::of_rank(below) {
                Some(scope) => {
                    if self.scopes.contains_key(scope) {
                        let entry = (scope.token(), Tree::Text(self.scopes[scope].token()));
                        scope.lemma_token_round_trip();
                        self.scopes[scope].lemma_token_round_trip();
                        assert(self.scope_entries(upto).drop_last() =~= self.scope_entries(below));
                        assert(self.scope_entries(upto).last() == entry);
                    }
                },
                None => {},
            }
        }
    }

    /// Entering the held scopes by rank, into a model without scopes, gives the scopes held
    /// below that rank.
    pub proof fn lemma_scope_pairs_entered(self, base: PermissionsModel, upto: nat)
        requires
            base.scopes == Map::<Scope, Privileges>::empty(),
        ensures
            base.add_scopes(self.scope_pairs(upto)).repositories == base.repositories,
            base.add_scopes(self.scope_pairs(upto)).scopes == Map::new(
                |scope: Scope| self.scopes.contains_key(scope) && scope.rank() < upto,
                |scope: Scope| self.scopes[scope],
            ),
        decreases upto,
    {
        let target = Map::new(
            |scope: Scope| self.scopes.contains_key(scope) && scope.rank() < upto,
            |scope: Scope| self.scopes[scope],
        );
        base.lemma_add_scopes_keeps_repositories(self.scope_pairs(upto));
        if upto == 0 {
            assert(base.add_scopes(self.scope_pairs(upto)).scopes =~= target);
        } else {
            let below = (upto - 1) as nat;
            self.lemma_scope_pairs_entered(base, below);
            match Scope::of_rank(below) {
                Some(added) => {
                    Scope::lemma_of_rank_exact(below, added);
                    if self.scopes.contains_key(added) {
                        assert(self.scope_pairs(upto).drop_last() =~= self.scope_pairs(below));
                    }
                },
                None => {},
            }
            assert forall|scope: Scope| scope.rank() == below implies Scope::of_rank(below)
                == Some(scope) by {
                Scope::lemma_of_rank_exact(below, scope);
            }
            assert(base.add_scopes(self.scope_pairs(upto)).scopes =~= target);
        }
    }

    /// Writing permissions as a document and reading the document gives the permissions
    /// again.
    pub proof fn lemma_document_round_trip(self)
        requires
            self.valid(),
        ensures
            PermissionsModel::of_document(self.document()) == Ok::<_, ReasonModel>(self),
    {
        lemma_field_names();
        let count = SCOPE_COUNT as nat;
        let repository_field = self.repository_field();
        let scope_field = self.scope_field();
        let items = self.repositories.map_values(|identifier: Seq<char>| Tree::Text(identifier));
        lemma_field_values_concat(repository_field, scope_field, "repositories"@, "repositories"@);
        lemma_field_values_concat(repository_field, scope_field, "permissions"@, "scopes"@);
        if repository_field.len() > 0 {
            lemma_field_values_single(repository_field[0], "repositories"@, "repositories"@);
            lemma_field_values_single(repository_field[0], "permissions"@, "scopes"@);
            assert(repository_field =~= seq![repository_field[0]]);
        }
        if scope_field.len() > 0 {
            lemma_field_values_single(scope_field[0], "repositories"@, "repositories"@);
            lemma_field_values_single(scope_field[0], "permissions"@, "scopes"@);
            assert(scope_field =~= seq![scope_field[0]]);
        }
        let found = field_values(repository_field + scope_field, "repositories"@, "repositories"@);
        assert(found =~= if self.repositories.len() == 0 {
            Seq::empty()
        } else {
            seq![Tree::List(items)]
        });
        assert(repositories_of(found) == Ok::<_, ReasonModel>(self.repositories)) by {
            if self.repositories.len() > 0 {
                assert(text_items(items)->Ok_0 =~= self.repositories);
            } else {
                assert(self.repositories =~= Seq::empty());
            }
        }
        let base = PermissionsModel::empty().add_repositories(self.repositories);
        assert(base.repositories =~= self.repositories) by {
            assert(crate::permissions::canonical_all(self.repositories) =~= self.repositories);
        }
        let held = field_values(repository_field + scope_field, "permissions"@, "scopes"@);
        assert(held =~= if self.scope_entries(count).len() == 0 {
            Seq::empty()
        } else {
            seq![Tree::Table(self.scope_entries(count))]
        });
        self.lemma_scope_entries_read_back(count);
        self.lemma_scope_entries(count);
        assert(scopes_of(held) == Ok::<_, ReasonModel>(self.scope_pairs(count))) by {
            if self.scope_entries(count).len() == 0 {
                assert(self.scope_pairs(count) =~= Seq::empty());
            }
        }
        self.lemma_scope_pairs_entered(base, count);
        let read = base.add_scopes(self.scope_pairs(count));
        assert(read.scopes =~= self.scopes) by {
            assert forall|scope: Scope| scope.rank() < count by {
                Scope::lemma_rank_injective(scope, scope);
            }
        }
    }

    /// A document reads the same whether its scopes stand under `scopes` or under
    /// `permissions`.
    pub proof fn lemma_alias_reads_alike(
        before: Seq<(Seq<char>, Tree)>,
        scopes: Tree,
        after: Seq<(Seq<char>, Tree)>,
    )
        ensures
            PermissionsModel::of_document(
                Tree::Table(before + seq![("scopes"@, scopes)] + after),
            ) == PermissionsModel::of_document(
                Tree::Table(before + seq![("permissions"@, scopes)] + after),
            ),
    {
        lemma_field_names();
        let short = seq![("scopes"@, scopes)];
        let long = seq![("permissions"@, scopes)];
        lemma_field_values_single(short[0], "repositories"@, "repositories"@);
        lemma_field_values_single(long[0], "repositories"@, "repositories"@);
        lemma_field_values_single(short[0], "permissions"@, "scopes"@);
        lemma_field_values_single(long[0], "permissions"@, "scopes"@);
        lemma_field_values_concat(before, short, "repositories"@, "repositories"@);
        lemma_field_values_concat(before, long, "repositories"@, "repositories"@);
        lemma_field_values_concat(before, short, "permissions"@, "scopes"@);
        lemma_field_values_concat(before, long, "permissions"@, "scopes"@);
        lemma_field_values_concat(before + short, after, "repositories"@, "repositories"@);
        lemma_field_values_concat(before + long, after, "repositories"@, "repositories"@);
        lemma_field_values_concat(before + short, after, "permissions"@, "scopes"@);
        lemma_field_values_concat(before + long, after, "permissions"@, "scopes"@);
    }
}

} // verus!
