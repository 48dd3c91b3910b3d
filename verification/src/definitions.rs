//! Namespace definitions: functions and constructors, enums, structs and
//! contracts. Nodes they refer to (identifiers, parameters, bodies, members)
//! are indices into a node store.
use vstd::prelude::*;
use vstd::string::*;

use crate::text::{digits_value, lemma_decimal_reads_back, nat_digits, push_char, push_nat_digits};
use crate::tree::{add_children, add_optional_child, opt_seq, ASTChildren, AstArena, ChildListBuilder};

verus! {

/// The views of a list of strings.
pub open spec fn string_views(v: Seq<String>) -> Seq<Seq<char>> {
    v.map_values(|s: String| s@)
}

/// The name of the return variable at position `idx`: the configured base
/// name, an underscore, and the position in decimal.
pub open spec fn return_var_name_at(base: Seq<char>, idx: nat) -> Seq<char> {
    base.push('_') + nat_digits(idx)
}

/// The name of the return variable at a position is the base name, an
/// underscore, and digits that read back as that position; so two positions
/// get the same name exactly when they are the same position.
pub proof fn lemma_return_var_names_distinct(base: Seq<char>, i: nat, j: nat)
    ensures
        ({
            let n = return_var_name_at(base, i);
            let k = base.len() + 1;
            &&& k <= n.len()
            &&& n.subrange(0, k as int) == base.push('_')
            &&& digits_value(n.subrange(k as int, n.len() as int)) == i
        }),
        (return_var_name_at(base, i) == return_var_name_at(base, j)) <==> i == j,
{
    lemma_decimal_reads_back(i as int);
    lemma_decimal_reads_back(j as int);
    let ni = return_var_name_at(base, i);
    let nj = return_var_name_at(base, j);
    let k = base.len() + 1;
    assert(ni.subrange(0, k as int) =~= base.push('_'));
    assert(ni.subrange(k as int, ni.len() as int) =~= nat_digits(i));
    assert(nj.subrange(k as int, nj.len() as int) =~= nat_digits(j));
    if ni == nj {
        assert(nat_digits(i) == nat_digits(j));
    }
}

/// A constructor or function definition.
pub struct ConstructorOrFunctionDefinition {
    /// The name of the identifier that names the definition.
    pub name: String,
    /// The identifier node that names the definition, if one was given.
    pub idf_node: Option<usize>,
    pub parameters: Vec<usize>,
    pub modifiers: Vec<String>,
    pub return_parameters: Vec<usize>,
    pub body: Option<usize>,
    /// The names of the variables that hold the return values, one per return parameter.
    pub return_var_names: Vec<String>,
    pub original_body: Option<usize>,
    /// The definitions this one calls, each listed once.
    pub called_functions: Vec<usize>,
    pub is_recursive: bool,
    pub has_static_body: bool,
    pub can_be_private: bool,
    /// The homomorphisms the definition uses, once they are known.
    pub used_homomorphisms: Option<Vec<String>>,
    pub requires_verification: bool,
    pub requires_verification_when_external: bool,
}

fn has_modifier(modifiers: &Vec<String>, word: &str) -> (r: bool)
    ensures
        r == string_views(modifiers@).contains(word@),
{
    let w = String::from_str(word);
    let n = modifiers.len();
    let mut i: usize = 0;
    while i < n
        invariant
            n == modifiers@.len(),
            i <= n,
            w@ == word@,
            forall|j: int| 0 <= j < i ==> (#[trigger] modifiers@[j])@ != word@,
        decreases n - i,
    {
        if modifiers[i] == w {
            assert(string_views(modifiers@)[i as int] == word@);
            return true;
        }
        i = i + 1;
    }
    assert forall|j: int| 0 <= j < string_views(modifiers@).len() implies #[trigger] string_views(
        modifiers@,
    )[j] != word@ by {
        assert(string_views(modifiers@)[j] == modifiers@[j]@);
    }
    false
}

impl ConstructorOrFunctionDefinition {
    /// A definition named `idf`, or "constructor" when no name is given.
    /// A definition with return parameters must be named, and not
    /// "constructor". Each return parameter gets a return variable named
    /// `return_var_name` followed by an underscore and its position.
    pub fn new(
        idf: Option<String>,
        idf_node: Option<usize>,
        parameters: Vec<usize>,
        modifiers: Vec<String>,
        return_parameters: Vec<usize>,
        body: Option<usize>,
        return_var_name: &str,
    ) -> (r: Self)
        requires
            (idf matches Some(name) && name@ != "constructor"@) || return_parameters@.len() == 0,
        ensures
            r.name@ == (match idf {
                Some(name) => name@,
                None => "constructor"@,
            }),
            r.idf_node == idf_node,
            r.parameters@ == parameters@,
            r.modifiers@ == modifiers@,
            r.return_parameters@ == return_parameters@,
            r.body == body,
            r.return_var_names@.len() == return_parameters@.len(),
            forall|i: int|
                0 <= i < return_parameters@.len() ==> (#[trigger] r.return_var_names@[i])@
                    == return_var_name_at(return_var_name@, i as nat),
            r.original_body is None,
            r.called_functions@.len() == 0,
            r.used_homomorphisms is None,
            !r.is_recursive,
            r.has_static_body,
            r.can_be_private,
            !r.requires_verification,
            !r.requires_verification_when_external,
    {
        let name = match idf {
            Some(name) => name,
            None => String::from_str("constructor"),
        };
        let n = return_parameters.len();
        let mut return_var_names: Vec<String> = Vec::new();
        let mut i: usize = 0;
        while i < n
            invariant
                n == return_parameters@.len(),
                i <= n,
                return_var_names@.len() == i,
                forall|j: int|
                    0 <= j < i ==> (#[trigger] return_var_names@[j])@ == return_var_name_at(
                        return_var_name@,
                        j as nat,
                    ),
            decreases n - i,
        {
            let mut v = String::from_str(return_var_name);
            push_char(&mut v, '_');
            push_nat_digits(&mut v, i as u64);
            assert(v@ =~= return_var_name_at(return_var_name@, i as nat));
            return_var_names.push(v);
            i = i + 1;
        }
        ConstructorOrFunctionDefinition {
            name,
            idf_node,
            parameters,
            modifiers,
            return_parameters,
            body,
            return_var_names,
            original_body: None,
            called_functions: Vec::new(),
            is_recursive: false,
            has_static_body: true,
            can_be_private: true,
            used_homomorphisms: None,
            requires_verification: false,
            requires_verification_when_external: false,
        }
    }

    /// Whether the definition may change state: it is neither "pure" nor "view".
    pub fn has_side_effects(&self) -> (r: bool)
        ensures
            r == !(string_views(self.modifiers@).contains("pure"@) || string_views(
                self.modifiers@,
            ).contains("view"@)),
    {
        !(has_modifier(&self.modifiers, "pure") || has_modifier(&self.modifiers, "view"))
    }

    /// Whether the definition may be called from outside: it is neither
    /// "private" nor "internal".
    pub fn can_be_external(&self) -> (r: bool)
        ensures
            r == !(string_views(self.modifiers@).contains("private"@) || string_views(
                self.modifiers@,
            ).contains("internal"@)),
    {
        !(has_modifier(&self.modifiers, "private") || has_modifier(&self.modifiers, "internal"))
    }

    /// Whether the definition is marked "external".
    pub fn is_external(&self) -> (r: bool)
        ensures
            r == string_views(self.modifiers@).contains("external"@),
    {
        has_modifier(&self.modifiers, "external")
    }

    /// Whether the definition is marked "payable".
    pub fn is_payable(&self) -> (r: bool)
        ensures
            r == string_views(self.modifiers@).contains("payable"@),
    {
        has_modifier(&self.modifiers, "payable")
    }

    /// The name of the definition.
    pub fn name(&self) -> (r: String)
        ensures
            r@ == self.name@,
    {
        self.name.clone()
    }

    /// Whether this is the constructor.
    pub fn is_constructor(&self) -> (r: bool)
        ensures
            r == (self.name@ == "constructor"@),
    {
        let c = String::from_str("constructor");
        self.name == c
    }

    /// Whether this is an ordinary function, that is, not the constructor.
    pub fn is_function(&self) -> (r: bool)
        ensures
            r == (self.name@ != "constructor"@),
    {
        !self.is_constructor()
    }

    /// Whether the definition must be verified when called from outside.
    pub fn get_requires_verification_when_external(&self) -> (r: bool)
        ensures
            r == self.requires_verification_when_external,
    {
        self.requires_verification_when_external
    }

    /// The name of the definition.
    pub fn get_name(&self) -> (r: String)
        ensures
            r@ == self.name@,
    {
        self.name()
    }
}


/// The children of a function definition: its name when it has one, then
/// every parameter in order, then every return parameter in order, then its
/// body when it has one, and nothing else.
pub proof fn lemma_function_definition_parts(f: ConstructorOrFunctionDefinition)
    ensures
        ({
            let s = f.spec_children();
            let i: int = if f.idf_node is Some { 1 } else { 0 };
            let np = f.parameters@.len() as int;
            let nr = f.return_parameters@.len() as int;
            &&& s.len() == i + np + nr + if f.body is Some { 1int } else { 0int }
            &&& f.idf_node matches Some(x) ==> s[0] == x
            &&& forall|k: int| 0 <= k < np ==> s[i + k] == #[trigger] f.parameters@[k]
            &&& forall|k: int| 0 <= k < nr ==> s[i + np + k] == #[trigger] f.return_parameters@[k]
            &&& f.body matches Some(b) ==> s[s.len() - 1] == b
        }),
{
    let i: int = if f.idf_node is Some { 1 } else { 0 };
    let np = f.parameters@.len() as int;
    let s = f.spec_children();
    assert forall|k: int| 0 <= k < np implies s[i + k] == #[trigger] f.parameters@[k] by {
        assert((opt_seq(f.idf_node) + f.parameters@)[i + k] == f.parameters@[k]);
    }
}

impl ASTChildren for ConstructorOrFunctionDefinition {
    /// The name if any, the parameters, the return parameters, then the body if any.
    open spec fn spec_children(&self) -> Seq<usize> {
        opt_seq(self.idf_node) + self.parameters@ + self.return_parameters@ + opt_seq(self.body)
    }

    fn process_children(&self, cb: &mut ChildListBuilder) {
        add_optional_child(cb, self.idf_node);
        add_children(cb, &self.parameters);
        add_children(cb, &self.return_parameters);
        add_optional_child(cb, self.body);
        assert(cb.children@ =~= old(cb).children@ + self.spec_children());
    }
}

/// An enum definition: its name and its values.
pub struct EnumDefinition {
    pub idf: Option<usize>,
    pub values: Vec<usize>,
}

impl EnumDefinition {
    pub fn new(idf: Option<usize>, values: Vec<usize>) -> (r: Self)
        ensures
            r.idf == idf,
            r.values@ == values@,
    {
        EnumDefinition { idf, values }
    }
}

impl ASTChildren for EnumDefinition {
    /// The name if any, then the values.
    open spec fn spec_children(&self) -> Seq<usize> {
        opt_seq(self.idf) + self.values@
    }

    fn process_children(&self, cb: &mut ChildListBuilder) {
        add_optional_child(cb, self.idf);
        add_children(cb, &self.values);
        assert(cb.children@ =~= old(cb).children@ + self.spec_children());
    }
}

/// A struct definition: its name and its members.
pub struct StructDefinition {
    pub idf: Option<usize>,
    pub members: Vec<usize>,
}

impl StructDefinition {
    pub fn new(idf: Option<usize>, members: Vec<usize>) -> (r: Self)
        ensures
            r.idf == idf,
            r.members@ == members@,
    {
        StructDefinition { idf, members }
    }
}

impl ASTChildren for StructDefinition {
    /// The name if any, then the members.
    open spec fn spec_children(&self) -> Seq<usize> {
        opt_seq(self.idf) + self.members@
    }

    fn process_children(&self, cb: &mut ChildListBuilder) {
        add_optional_child(cb, self.idf);
        add_children(cb, &self.members);
        assert(cb.children@ =~= old(cb).children@ + self.spec_children());
    }
}

/// A contract definition: its name and the declarations it holds.
pub struct ContractDefinition {
    pub idf: Option<usize>,
    pub state_variable_declarations: Vec<usize>,
    pub constructor_definitions: Vec<usize>,
    pub function_definitions: Vec<usize>,
    pub enum_definitions: Vec<usize>,
    pub struct_definitions: Vec<usize>,
}

/// What a contract's member lookup finds.
pub enum ContractItem {
    /// A node of the store.
    Node(usize),
    /// A fresh constructor without parameters and without body, for a
    /// contract that declares no constructor, with its parent: the contract's node.
    EmptyConstructor(ConstructorOrFunctionDefinition, usize),
}

/// `c` is a definition named "constructor" with no parameters, modifiers,
/// return parameters or body, as `ConstructorOrFunctionDefinition::new` makes it.
pub open spec fn is_empty_constructor(c: ConstructorOrFunctionDefinition) -> bool {
    &&& c.name@ == "constructor"@
    &&& c.idf_node is None
    &&& c.parameters@.len() == 0
    &&& c.modifiers@.len() == 0
    &&& c.return_parameters@.len() == 0
    &&& c.body is None
    &&& c.return_var_names@.len() == 0
    &&& c.original_body is None
    &&& c.called_functions@.len() == 0
    &&& c.used_homomorphisms is None
    &&& !c.is_recursive
    &&& c.has_static_body
    &&& c.can_be_private
    &&& !c.requires_verification
    &&& !c.requires_verification_when_external
}

impl ContractDefinition {
    pub fn new(
        idf: Option<usize>,
        state_variable_declarations: Vec<usize>,
        constructor_definitions: Vec<usize>,
        function_definitions: Vec<usize>,
        enum_definitions: Vec<usize>,
        struct_definitions: Vec<usize>,
    ) -> (r: Self)
        ensures
            r.idf == idf,
            r.state_variable_declarations@ == state_variable_declarations@,
            r.constructor_definitions@ == constructor_definitions@,
            r.function_definitions@ == function_definitions@,
            r.enum_definitions@ == enum_definitions@,
            r.struct_definitions@ == struct_definitions@,
    {
        ContractDefinition {
            idf,
            state_variable_declarations,
            constructor_definitions,
            function_definitions,
            enum_definitions,
            struct_definitions,
        }
    }

    /// Looks up `key` in the contract whose node is `node` (the node whose
    /// children this contract lists). "constructor" finds the one
    /// constructor, a fresh empty constructor whose parent is the contract
    /// when there is none, and nothing when there are several; any other
    /// name finds the node that declares it.
    pub fn get_item(&self, arena: &AstArena, node: usize, key: &String) -> (r: Option<ContractItem>)
        requires
            arena.wf(),
            node < arena@.len(),
            arena@[node as int].children == self.spec_children(),
            key@ != "constructor"@ ==> arena@[node as int].names.dom().contains(key@),
        ensures
            key@ == "constructor"@ ==> (if self.constructor_definitions@.len() == 0 {
                r matches Some(ContractItem::EmptyConstructor(c, p)) && is_empty_constructor(c) && p
                    == node
            } else if self.constructor_definitions@.len() == 1 {
                r == Some(ContractItem::Node(self.constructor_definitions@[0]))
            } else {
                r is None
            }),
            key@ != "constructor"@ ==> r == (match arena@[arena@[node as int].names[key@] as int].parent {
                Some(p) => Some(ContractItem::Node(p)),
                None => None,
            }),
    {
        let c = String::from_str("constructor");
        if *key == c {
            if self.constructor_definitions.len() == 0 {
                Some(
                    ContractItem::EmptyConstructor(
                        ConstructorOrFunctionDefinition::new(
                            None,
                            None,
                            Vec::new(),
                            Vec::new(),
                            Vec::new(),
                            None,
                            "",
                        ),
                        node,
                    ),
                )
            } else if self.constructor_definitions.len() == 1 {
                Some(ContractItem::Node(self.constructor_definitions[0]))
            } else {
                None
            }
        } else {
            let d_identifier = arena.lookup_name(node, key).unwrap();
            match arena.parent(d_identifier) {
                Some(p) => Some(ContractItem::Node(p)),
                None => None,
            }
        }
    }
}

/// The children of a contract: its name when it has one, then every enum,
/// every struct, every state variable, every constructor and every function,
/// each group in its own order, and nothing else.
pub proof fn lemma_contract_parts(c: ContractDefinition)
    ensures
        ({
            let s = c.spec_children();
            let o0: int = if c.idf is Some { 1 } else { 0 };
            let o1 = o0 + c.enum_definitions@.len();
            let o2 = o1 + c.struct_definitions@.len();
            let o3 = o2 + c.state_variable_declarations@.len();
            let o4 = o3 + c.constructor_definitions@.len();
            &&& s.len() == o4 + c.function_definitions@.len()
            &&& c.idf matches Some(x) ==> s[0] == x
            &&& forall|k: int| 0 <= k < c.enum_definitions@.len() ==> s[o0 + k] == #[trigger] c.enum_definitions@[k]
            &&& forall|k: int| 0 <= k < c.struct_definitions@.len() ==> s[o1 + k] == #[trigger] c.struct_definitions@[k]
            &&& forall|k: int| 0 <= k < c.state_variable_declarations@.len() ==> s[o2 + k] == #[trigger] c.state_variable_declarations@[k]
            &&& forall|k: int| 0 <= k < c.constructor_definitions@.len() ==> s[o3 + k] == #[trigger] c.constructor_definitions@[k]
            &&& forall|k: int| 0 <= k < c.function_definitions@.len() ==> s[o4 + k] == #[trigger] c.function_definitions@[k]
        }),
{
}

impl ASTChildren for ContractDefinition {
    /// The name if any, then the enums, the structs, the state variables,
    /// the constructors and the functions.
    open spec fn spec_children(&self) -> Seq<usize> {
        opt_seq(self.idf) + self.enum_definitions@ + self.struct_definitions@
            + self.state_variable_declarations@ + self.constructor_definitions@
            + self.function_definitions@
    }

    fn process_children(&self, cb: &mut ChildListBuilder) {
        add_optional_child(cb, self.idf);
        add_children(cb, &self.enum_definitions);
        add_children(cb, &self.struct_definitions);
        add_children(cb, &self.state_variable_declarations);
        add_children(cb, &self.constructor_definitions);
        add_children(cb, &self.function_definitions);
        assert(cb.children@ =~= old(cb).children@ + self.spec_children());
    }
}

} // verus!
