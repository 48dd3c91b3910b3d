# zkay_ast

The data model of the zkay syntax tree, verified with Verus.

Nodes live in one store (`tree::AstArena`) and are named by their index;
parent, child, enclosing-statement, enclosing-function, reference and scope
links are indices into the same store, and the store's well-formedness
(`tree::tree_wf`) says that these links form a forest.

- `src/ast_type.rs`: the node kinds and their base-kind hierarchy.
- `src/node_kind.rs`: where a node sits in the node enums, and kind tests.
- `src/tree.rs`: the node store, child lists, ancestry and statement-list search.
- `src/statement.rs`, `src/definitions.rs`, `src/source_unit.rs`: statements,
  definitions and source units, the order in which they list their children,
  and member lookup.
- `src/instance_target.rs`: the storage location an expression denotes.
- `src/messages.rs`, `src/text.rs`: error and warning messages against source
  locations, and indentation of text.
- `src/shared_cell.rs`: a shared, interior-mutable holder of one value.
- `app/lib.rs`: printing of compiler warnings.
