//! `DOM` domain.
use vstd::prelude::*;


verus! {

/// Parameters of `DOM.getDocument`.
#[derive(Debug)]
pub struct GetDocumentParams {
    /// Depth of the returned tree; `-1` for the entire tree.
    pub depth: Option<i64>,
    /// Traverse through iframes and shadow roots.
    pub pierce: Option<bool>,
}

/// Response of `DOM.getDocument`.
#[derive(Debug)]
pub struct GetDocumentResult {
    /// The root node.
    pub root: Node,
}

/// A DOM node as described by the `DOM` domain.
#[derive(Debug)]
pub struct Node {
    /// Node id.
    pub node_id: i64,
    /// Backend node id.
    pub backend_node_id: i64,
    /// Node type.
    pub node_type: i64,
    /// Node name.
    pub node_name: String,
    /// Local name.
    pub local_name: String,
    /// Node value.
    pub node_value: String,
    /// The frame this node owns, for `<iframe>` / `<frame>` elements.
    pub frame_id: Option<String>,
}

/// Parameters of `DOM.getBoxModel`.
#[derive(Debug)]
pub struct GetBoxModelParams {
    /// Node id.
    pub node_id: Option<i64>,
    /// Backend node id.
    pub backend_node_id: Option<i64>,
    /// Remote object id of a node.
    pub object_id: Option<String>,
}

/// Parameters of `DOM.getOuterHTML`.
#[derive(Debug)]
pub struct GetOuterHTMLParams {
    /// Node id.
    pub node_id: Option<i64>,
    /// Backend node id.
    pub backend_node_id: Option<i64>,
    /// Remote object id of a node.
    pub object_id: Option<String>,
}

/// Response of `DOM.getOuterHTML`.
#[derive(Debug)]
pub struct GetOuterHTMLResult {
    /// Serialized HTML.
    pub outer_html: String,
}

/// Parameters of `DOM.focus`.
#[derive(Debug)]
pub struct FocusParams {
    /// Node id.
    pub node_id: Option<i64>,
    /// Backend node id.
    pub backend_node_id: Option<i64>,
    /// Remote object id of a node.
    pub object_id: Option<String>,
}

/// Parameters of `DOM.setFileInputFiles`.
#[derive(Debug)]
pub struct SetFileInputFilesParams {
    /// Absolute paths of the files to assign.
    pub files: Vec<String>,
    /// Node id.
    pub node_id: Option<i64>,
    /// Backend node id.
    pub backend_node_id: Option<i64>,
    /// Remote object id of a node.
    pub object_id: Option<String>,
}

/// Parameters of `DOM.describeNode`.
#[derive(Debug)]
pub struct DescribeNodeParams {
    /// Remote object id of a node.
    pub object_id: Option<String>,
    /// Backend node id.
    pub backend_node_id: Option<i64>,
    /// Node id.
    pub node_id: Option<i64>,
}

/// Response of `DOM.describeNode`.
#[derive(Debug)]
pub struct DescribeNodeResult {
    /// The described node.
    pub node: Node,
}

/// Parameters of `DOM.getFrameOwner`.
#[derive(Debug)]
pub struct GetFrameOwnerParams {
    /// The frame whose owner node is requested.
    pub frame_id: String,
}

/// Response of `DOM.getFrameOwner`.
#[derive(Debug)]
pub struct GetFrameOwnerResult {
    /// Backend node id of the owning `<iframe>`/`<frame>` element.
    pub backend_node_id: i64,
    /// Node id of the owning element, when available.
    pub node_id: Option<i64>,
}

}
