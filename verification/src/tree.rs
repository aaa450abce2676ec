//! The syntax tree that the parser builds and the code generator reads.
use vstd::prelude::*;
use crate::tokenizer::{Token, TokenModel};

verus! {

/// A node of the syntax tree.
#[derive(Debug, PartialEq)]
pub enum ASTNode {
    /// A use of a declared name, with the type it was declared with.
    Identifier { name: String, data_type: Token },
    Declaration { data_type: Token, identifier: Token, value: Box<ASTNode> },
    ArrayLiteral { length: usize, values_data: Vec<ASTNode>, data_type: Token, ident: String },
    Number(i32),
    StringLiteral(String),
    BinaryOp { left: Box<ASTNode>, op: Token, right: Box<ASTNode> },
    /// `name++` or `name--`.
    UniqueOp { ident: String, op: Token },
    /// The whole program.
    Main { body: Vec<ASTNode> },
    Print(Token),
    /// The condition, then the statements of the body.
    If { block: Vec<ASTNode> },
    /// The condition, then the statements of the body.
    ElseIf { block: Vec<ASTNode> },
    Else { block: Vec<ASTNode> },
    For {
        declaration: Box<ASTNode>,
        expression: Box<ASTNode>,
        operation: Box<ASTNode>,
        block: Vec<ASTNode>,
    },
}

/// A node of the syntax tree as contracts see it.
pub enum AstModel {
    Identifier { name: Seq<char>, data_type: TokenModel },
    Declaration { data_type: TokenModel, identifier: TokenModel, value: Box<AstModel> },
    ArrayLiteral {
        length: nat,
        values_data: Seq<AstModel>,
        data_type: TokenModel,
        ident: Seq<char>,
    },
    Number(int),
    StringLiteral(Seq<char>),
    BinaryOp { left: Box<AstModel>, op: TokenModel, right: Box<AstModel> },
    UniqueOp { ident: Seq<char>, op: TokenModel },
    Main { body: Seq<AstModel> },
    Print(TokenModel),
    If { block: Seq<AstModel> },
    ElseIf { block: Seq<AstModel> },
    Else { block: Seq<AstModel> },
    For {
        declaration: Box<AstModel>,
        expression: Box<AstModel>,
        operation: Box<AstModel>,
        block: Seq<AstModel>,
    },
}

/// What a node is, apart from what it holds.
#[derive(Clone, Copy, Debug, PartialEq, Eq, Structural)]
pub enum NodeKind {
    Identifier,
    Declaration,
    ArrayLiteral,
    Number,
    StringLiteral,
    BinaryOp,
    UniqueOp,
    Main,
    Print,
    If,
    ElseIf,
    Else,
    For,
}

/// The kind of a node.
pub open spec fn kind_of(node: AstModel) -> NodeKind {
    match node {
        AstModel::Identifier { .. } => NodeKind::Identifier,
        AstModel::Declaration { .. } => NodeKind::Declaration,
        AstModel::ArrayLiteral { .. } => NodeKind::ArrayLiteral,
        AstModel::Number(_) => NodeKind::Number,
        AstModel::StringLiteral(_) => NodeKind::StringLiteral,
        AstModel::BinaryOp { .. } => NodeKind::BinaryOp,
        AstModel::UniqueOp { .. } => NodeKind::UniqueOp,
        AstModel::Main { .. } => NodeKind::Main,
        AstModel::Print(_) => NodeKind::Print,
        AstModel::If { .. } => NodeKind::If,
        AstModel::ElseIf { .. } => NodeKind::ElseIf,
        AstModel::Else { .. } => NodeKind::Else,
        AstModel::For { .. } => NodeKind::For,
    }
}

/// The models of the nodes of a vector.
pub open spec fn models_in(nodes: &Vec<ASTNode>) -> Seq<AstModel>
    decreases nodes,
{
    Seq::new(
        nodes.len() as nat,
        |i: int|
            if 0 <= i < nodes.len() {
                model_of(&nodes[i])
            } else {
                AstModel::Number(0)
            },
    )
}

/// The model of a node.
pub open spec fn model_of(node: &ASTNode) -> AstModel
    decreases node,
{
    match node {
        ASTNode::Identifier { name, data_type } => AstModel::Identifier {
            name: name@,
            data_type: data_type@,
        },
        ASTNode::Declaration { data_type, identifier, value } => AstModel::Declaration {
            data_type: data_type@,
            identifier: identifier@,
            value: Box::new(model_of(value)),
        },
        ASTNode::ArrayLiteral { length, values_data, data_type, ident } => AstModel::ArrayLiteral {
            length: *length as nat,
            values_data: models_in(values_data),
            data_type: data_type@,
            ident: ident@,
        },
        ASTNode::Number(v) => AstModel::Number(*v as int),
        ASTNode::StringLiteral(s) => AstModel::StringLiteral(s@),
        ASTNode::BinaryOp { left, op, right } => AstModel::BinaryOp {
            left: Box::new(model_of(left)),
            op: op@,
            right: Box::new(model_of(right)),
        },
        ASTNode::UniqueOp { ident, op } => AstModel::UniqueOp { ident: ident@, op: op@ },
        ASTNode::Main { body } => AstModel::Main { body: models_in(body) },
        ASTNode::Print(token) => AstModel::Print(token@),
        ASTNode::If { block } => AstModel::If { block: models_in(block) },
        ASTNode::ElseIf { block } => AstModel::ElseIf { block: models_in(block) },
        ASTNode::Else { block } => AstModel::Else { block: models_in(block) },
        ASTNode::For { declaration, expression, operation, block } => AstModel::For {
            declaration: Box::new(model_of(declaration)),
            expression: Box::new(model_of(expression)),
            operation: Box::new(model_of(operation)),
            block: models_in(block),
        },
    }
}

impl View for ASTNode {
    type V = AstModel;

    open spec fn view(&self) -> AstModel {
        model_of(self)
    }
}

/// The models of a vector of nodes are the models of its nodes, one by one.
pub proof fn lemma_models_in(nodes: &Vec<ASTNode>)
    ensures
        models_in(nodes).len() == nodes.len(),
        forall|i: int| 0 <= i < nodes.len() ==> (#[trigger] models_in(nodes)[i]) == nodes@[i]@,
{
}

/// After a push, the models are those from before with the new node's model
/// behind them.
pub proof fn lemma_models_in_push(before: &Vec<ASTNode>, after: &Vec<ASTNode>, node: ASTNode)
    requires
        after@ == before@.push(node),
    ensures
        models_in(after) == models_in(before).push(node@),
{
    assert(models_in(after) =~= models_in(before).push(node@));
}

/// Appends `node` to `nodes`.
pub fn push_node(nodes: &mut Vec<ASTNode>, node: ASTNode)
    ensures
        final(nodes)@ == old(nodes)@.push(node),
        models_in(final(nodes)) == models_in(old(nodes)).push(node@),
{
    let ghost before = *nodes;
    nodes.push(node);
    proof {
        lemma_models_in_push(&before, nodes, node);
    }
}

fn clone_nodes(nodes: &Vec<ASTNode>) -> (r: Vec<ASTNode>)
    ensures
        models_in(&r) == models_in(nodes),
    decreases nodes,
{
    let mut out: Vec<ASTNode> = Vec::new();
    let mut i: usize = 0;
    while i < nodes.len()
        invariant
            i <= nodes.len(),
            out.len() == i,
            forall|j: int| 0 <= j < i ==> out@[j]@ == nodes@[j]@,
        decreases nodes.len() - i,
    {
        let copy = nodes[i].clone();
        out.push(copy);
        i += 1;
    }
    assert(models_in(&out) =~= models_in(nodes));
    out
}

impl ASTNode {
    /// The kind of the node.
    pub fn kind(&self) -> (k: NodeKind)
        ensures
            k == kind_of(self@),
    {
        match self {
            ASTNode::Identifier { .. } => NodeKind::Identifier,
            ASTNode::Declaration { .. } => NodeKind::Declaration,
            ASTNode::ArrayLiteral { .. } => NodeKind::ArrayLiteral,
            ASTNode::Number(_) => NodeKind::Number,
            ASTNode::StringLiteral(_) => NodeKind::StringLiteral,
            ASTNode::BinaryOp { .. } => NodeKind::BinaryOp,
            ASTNode::UniqueOp { .. } => NodeKind::UniqueOp,
            ASTNode::Main { .. } => NodeKind::Main,
            ASTNode::Print(_) => NodeKind::Print,
            ASTNode::If { .. } => NodeKind::If,
            ASTNode::ElseIf { .. } => NodeKind::ElseIf,
            ASTNode::Else { .. } => NodeKind::Else,
            ASTNode::For { .. } => NodeKind::For,
        }
    }
}

impl Clone for ASTNode {
    fn clone(&self) -> (r: Self)
        ensures
            r@ == self@,
        decreases self,
    {
        match self {
            ASTNode::Identifier { name, data_type } => ASTNode::Identifier {
                name: name.clone(),
                data_type: data_type.clone(),
            },
            ASTNode::Declaration { data_type, identifier, value } => ASTNode::Declaration {
                data_type: data_type.clone(),
                identifier: identifier.clone(),
                value: Box::new((**value).clone()),
            },
            ASTNode::ArrayLiteral { length, values_data, data_type, ident } => {
                ASTNode::ArrayLiteral {
                    length: *length,
                    values_data: clone_nodes(values_data),
                    data_type: data_type.clone(),
                    ident: ident.clone(),
                }
            },
            ASTNode::Number(v) => ASTNode::Number(*v),
            ASTNode::StringLiteral(s) => ASTNode::StringLiteral(s.clone()),
            ASTNode::BinaryOp { left, op, right } => ASTNode::BinaryOp {
                left: Box::new((**left).clone()),
                op: op.clone(),
                right: Box::new((**right).clone()),
            },
            ASTNode::UniqueOp { ident, op } => ASTNode::UniqueOp {
                ident: ident.clone(),
                op: op.clone(),
            },
            ASTNode::Main { body } => ASTNode::Main { body: clone_nodes(body) },
            ASTNode::Print(token) => ASTNode::Print(token.clone()),
            ASTNode::If { block } => ASTNode::If { block: clone_nodes(block) },
            ASTNode::ElseIf { block } => ASTNode::ElseIf { block: clone_nodes(block) },
            ASTNode::Else { block } => ASTNode::Else { block: clone_nodes(block) },
            ASTNode::For { declaration, expression, operation, block } => ASTNode::For {
                declaration: Box::new((**declaration).clone()),
                expression: Box::new((**expression).clone()),
                operation: Box::new((**operation).clone()),
                block: clone_nodes(block),
            },
        }
    }
}

} // verus!
