//! The dot renderer: a pure, total mapping from a completed diagram model
//! to Graphviz-compatible output text.
//!
//! Everything is wrapped in a single directed-graph block. Each entity, in
//! declaration order, becomes a table-shaped node keyed by its name, with a
//! header row showing the name and one row per attribute. Each relation, in
//! declaration order, becomes a directed edge from its first entity's name
//! to its second entity's name, labelled at the tail and at the head with
//! the display forms of its two cardinalities.
//!
//! Option sets attached to entities, attributes and relations are not yet
//! projected into output styling attributes; the selector subsets of
//! [`crate::er::options_to`] exist to support that projection.

use crate::er::{Attribute, AttributeView, Entity, EntityView, Relation, RelationView, ER, ErView};
use vstd::prelude::*;

verus! {

/// The rendered form of one attribute: a table row holding the field name.
pub open spec fn spec_attr_dot(a: AttributeView) -> Seq<char> {
    "<tr><td>"@ + a.field + "</td></tr>"@
}

/// The rendered rows of an attribute list, one per line.
pub open spec fn spec_attrs_dot(xs: Seq<AttributeView>) -> Seq<char>
    decreases xs.len(),
{
    if xs.len() == 0 {
        Seq::empty()
    } else if xs.len() == 1 {
        spec_attr_dot(xs[0])
    } else {
        spec_attrs_dot(xs.drop_last()) + "\n"@ + spec_attr_dot(xs.last())
    }
}

/// The rendered form of one entity: a table-shaped node keyed by the
/// entity's name, holding a header row with the name and one row per
/// attribute, in declaration order.
pub open spec fn spec_entity_dot(e: EntityView) -> Seq<char> {
    "\""@ + e.name + "\" [label=<\n        <table>\n            <tr><td>"@ + e.name
        + "</td></tr>\n            "@ + spec_attrs_dot(e.attribs) + "\n        </table>>];"@
}

/// The rendered entity nodes, one per line.
pub open spec fn spec_entities_dot(xs: Seq<EntityView>) -> Seq<char>
    decreases xs.len(),
{
    if xs.len() == 0 {
        Seq::empty()
    } else if xs.len() == 1 {
        spec_entity_dot(xs[0])
    } else {
        spec_entities_dot(xs.drop_last()) + "\n"@ + spec_entity_dot(xs.last())
    }
}

/// The rendered form of one relation: a directed edge from the first
/// entity's name to the second's, with the cardinalities' display forms as
/// tail and head labels.
pub open spec fn spec_rel_dot(r: RelationView) -> Seq<char> {
    "\""@ + r.entity1 + "\" -> \""@ + r.entity2 + "\" [taillabel=\""@ + r.card1.spec_text()
        + "\", headlabel=\""@ + r.card2.spec_text() + "\"];"@
}

/// The rendered relation edges, one per line.
pub open spec fn spec_rels_dot(xs: Seq<RelationView>) -> Seq<char>
    decreases xs.len(),
{
    if xs.len() == 0 {
        Seq::empty()
    } else if xs.len() == 1 {
        spec_rel_dot(xs[0])
    } else {
        spec_rels_dot(xs.drop_last()) + "\n"@ + spec_rel_dot(xs.last())
    }
}

/// The rendered form of a whole diagram: one directed-graph block holding
/// the entity nodes and the relation edges.
pub open spec fn spec_er_dot(v: ErView) -> Seq<char> {
    "\n        digraph ER {\n            "@ + spec_entities_dot(v.entities)
        + "\n            "@ + spec_rels_dot(v.rels) + "\n        }\n        "@
}

impl Attribute {
    /// Renders this attribute as a table row.
    pub fn as_dot(&self) -> (r: String)
        ensures
            r@ == spec_attr_dot(self@),
    {
        let mut out = String::new();
        out.append("<tr><td>");
        out.append(self.field.as_str());
        out.append("</td></tr>");
        proof {
            assert(out@ =~= spec_attr_dot(self@));
        }
        out
    }
}

fn attrs_dot(xs: &Vec<Attribute>, k: usize) -> (r: String)
    requires
        k <= xs@.len(),
    ensures
        r@ == spec_attrs_dot(xs.deep_view().take(k as int)),
    decreases k,
{
    proof {
        if k > 0 {
            assert(xs.deep_view().take(k as int).drop_last() =~= xs.deep_view().take(k as int - 1));
            assert(xs.deep_view().take(k as int).last() == xs[k as int - 1].deep_view());
        } else {
            assert(xs.deep_view().take(0) =~= Seq::<AttributeView>::empty());
        }
    }
    if k == 0 {
        String::new()
    } else if k == 1 {
        xs[0].as_dot()
    } else {
        let mut out = attrs_dot(xs, k - 1);
        out.append("\n");
        let row = xs[k - 1].as_dot();
        out.append(row.as_str());
        proof {
            assert(out@ =~= spec_attrs_dot(xs.deep_view().take(k as int)));
        }
        out
    }
}

impl Entity {
    /// Renders this entity as a table-shaped node.
    pub fn as_dot(&self) -> (r: String)
        ensures
            r@ == spec_entity_dot(self@),
    {
        let n = self.attribs.len();
        let rows = attrs_dot(&self.attribs, n);
        proof {
            assert(self.attribs.deep_view().take(n as int) =~= self.attribs.deep_view());
        }
        let mut out = String::new();
        out.append("\"");
        out.append(self.name.as_str());
        out.append("\" [label=<\n        <table>\n            <tr><td>");
        out.append(self.name.as_str());
        out.append("</td></tr>\n            ");
        out.append(rows.as_str());
        out.append("\n        </table>>];");
        proof {
            assert(out@ =~= spec_entity_dot(self@));
        }
        out
    }
}

fn entities_dot(xs: &Vec<Entity>, k: usize) -> (r: String)
    requires
        k <= xs@.len(),
    ensures
        r@ == spec_entities_dot(xs.deep_view().take(k as int)),
    decreases k,
{
    proof {
        if k > 0 {
            assert(xs.deep_view().take(k as int).drop_last() =~= xs.deep_view().take(k as int - 1));
            assert(xs.deep_view().take(k as int).last() == xs[k as int - 1].deep_view());
        } else {
            assert(xs.deep_view().take(0) =~= Seq::<EntityView>::empty());
        }
    }
    if k == 0 {
        String::new()
    } else if k == 1 {
        xs[0].as_dot()
    } else {
        let mut out = entities_dot(xs, k - 1);
        out.append("\n");
        let node = xs[k - 1].as_dot();
        out.append(node.as_str());
        proof {
            assert(out@ =~= spec_entities_dot(xs.deep_view().take(k as int)));
        }
        out
    }
}

impl Relation {
    /// Renders this relation as a directed, labelled edge. The arrow starts
    /// at the tail (the first entity) and ends at the head (the second).
    pub fn as_dot(&self) -> (r: String)
        ensures
            r@ == spec_rel_dot(self@),
    {
        let mut out = String::new();
        out.append("\"");
        out.append(self.entity1.as_str());
        out.append("\" -> \"");
        out.append(self.entity2.as_str());
        out.append("\" [taillabel=\"");
        out.append(self.card1.text());
        out.append("\", headlabel=\"");
        out.append(self.card2.text());
        out.append("\"];");
        proof {
            assert(out@ =~= spec_rel_dot(self@));
        }
        out
    }
}

fn rels_dot(xs: &Vec<Relation>, k: usize) -> (r: String)
    requires
        k <= xs@.len(),
    ensures
        r@ == spec_rels_dot(xs.deep_view().take(k as int)),
    decreases k,
{
    proof {
        if k > 0 {
            assert(xs.deep_view().take(k as int).drop_last() =~= xs.deep_view().take(k as int - 1));
            assert(xs.deep_view().take(k as int).last() == xs[k as int - 1].deep_view());
        } else {
            assert(xs.deep_view().take(0) =~= Seq::<RelationView>::empty());
        }
    }
    if k == 0 {
        String::new()
    } else if k == 1 {
        xs[0].as_dot()
    } else {
        let mut out = rels_dot(xs, k - 1);
        out.append("\n");
        let edge = xs[k - 1].as_dot();
        out.append(edge.as_str());
        proof {
            assert(out@ =~= spec_rels_dot(xs.deep_view().take(k as int)));
        }
        out
    }
}

impl ER {
    /// Renders this diagram as dot text: a pure, total function of the
    /// model, with no error path.
    pub fn as_dot(&self) -> (r: String)
        ensures
            r@ == spec_er_dot(self@),
    {
        let ne = self.entities.len();
        let nodes = entities_dot(&self.entities, ne);
        let nr = self.rels.len();
        let edges = rels_dot(&self.rels, nr);
        proof {
            assert(self.entities.deep_view().take(ne as int) =~= self.entities.deep_view());
            assert(self.rels.deep_view().take(nr as int) =~= self.rels.deep_view());
        }
        let mut out = String::new();
        out.append("\n        digraph ER {\n            ");
        out.append(nodes.as_str());
        out.append("\n            ");
        out.append(edges.as_str());
        out.append("\n        }\n        ");
        proof {
            assert(out@ =~= spec_er_dot(self@));
        }
        out
    }
}

/// Determinism of the pipeline: the parse is a function of the input text
/// alone, and the rendering is a function of the model alone, so parsing
/// byte-identical inputs gives identical models, and rendering them gives
/// byte-identical output.
pub proof fn lemma_parse_render_deterministic(s1: Seq<char>, s2: Seq<char>)
    requires
        s1 == s2,
    ensures
        crate::er::spec_parse_er(s1) == crate::er::spec_parse_er(s2),
        (crate::er::spec_parse_er(s1) matches Ok(m1) ==> crate::er::spec_parse_er(s2) matches Ok(
            m2,
        ) && spec_er_dot(m1) == spec_er_dot(m2)),
{
}

} // verus!
