//! The sensor tree that LibreHardwareMonitor's HTTP server sends as JSON,
//! held as plain values, and its flattening into sensors: each node with a
//! value becomes a sensor named by the path of non-empty names down to it.

use vstd::prelude::*;

use crate::text::{chars_of, string_of, trim, trim_chars};

verus! {

/// The value of a node, as the JSON gives it.
#[derive(Debug, Clone, PartialEq, Eq)]
pub enum LhmNodeValue {
    /// No value, or `null`.
    Missing,
    /// A string.
    Text(String),
    /// A number, as its JSON text.
    Number(String),
    /// Any other JSON value.
    Other,
}

/// A node of the tree: its name (`Text`), its value (`Value`) and its
/// children (`Children`).
#[derive(Debug)]
pub struct LhmNode {
    pub text: Option<String>,
    pub value: LhmNodeValue,
    pub children: Vec<LhmNode>,
}

/// A sensor of the tree: the names from the root down to it (the empty ones
/// left out), its name, and its value text.
#[derive(Debug, Clone, PartialEq, Eq)]
pub struct LhmHttpSensor {
    pub path: Vec<String>,
    pub name: String,
    pub value: String,
}

/// A sensor as plain values: path, name, value.
pub type SensorView = (Seq<Seq<char>>, Seq<char>, Seq<char>);

/// The trimmed name of a node; empty where it has none.
pub open spec fn node_name(n: LhmNode) -> Seq<char> {
    match n.text {
        Some(t) => trim(t@),
        None => Seq::<char>::empty(),
    }
}

/// The value text of a node: a string trimmed, unless that leaves nothing;
/// a number as written; nothing for anything else.
pub open spec fn node_value(v: LhmNodeValue) -> Option<Seq<char>> {
    match v {
        LhmNodeValue::Text(t) => if trim(t@).len() > 0 {
            Some(trim(t@))
        } else {
            None
        },
        LhmNodeValue::Number(t) => Some(t@),
        _ => None,
    }
}

/// The path of a node below `ancestors`: its name is added unless empty.
pub open spec fn node_path(n: LhmNode, ancestors: Seq<Seq<char>>) -> Seq<Seq<char>> {
    if node_name(n).len() > 0 {
        ancestors.push(node_name(n))
    } else {
        ancestors
    }
}

/// The sensor a node itself makes, if it has a value; a node without a
/// name is called `sensor`.
pub open spec fn own_sensor(n: LhmNode, ancestors: Seq<Seq<char>>) -> Seq<SensorView> {
    match node_value(n.value) {
        Some(v) => seq![
            (
                node_path(n, ancestors),
                if node_name(n).len() == 0 {
                    "sensor"@
                } else {
                    node_name(n)
                },
                v,
            ),
        ],
        None => seq![],
    }
}

/// The sensors of a node and of all nodes below it, in depth-first order:
/// the node first, then each child's sensors in turn.
pub open spec fn tree_sensors(n: LhmNode, ancestors: Seq<Seq<char>>) -> Seq<SensorView>
    decreases n, 1int,
{
    own_sensor(n, ancestors) + forest_sensors(n, n.children@.len() as int, node_path(n, ancestors))
}

/// The sensors below the first `k` children of `n`, in order.
pub open spec fn forest_sensors(n: LhmNode, k: int, path: Seq<Seq<char>>) -> Seq<SensorView>
    decreases n, 0int, k,
{
    if k <= 0 || k > n.children@.len() {
        seq![]
    } else {
        proof {
            assert(decreases_to!(n => n.children));
            assert(decreases_to!(n.children => n.children@));
            assert(decreases_to!(n.children@ => n.children@[k - 1]));
        }
        forest_sensors(n, k - 1, path) + tree_sensors(n.children@[k - 1], path)
    }
}

pub open spec fn sensor_view(s: LhmHttpSensor) -> SensorView {
    (s.path@.map_values(|p: String| p@), s.name@, s.value@)
}

pub open spec fn sensors_view(s: Seq<LhmHttpSensor>) -> Seq<SensorView> {
    s.map_values(|x: LhmHttpSensor| sensor_view(x))
}

fn node_value_text(v: &LhmNodeValue) -> (r: Option<String>)
    ensures
        match r {
            Some(t) => node_value(*v) == Some(t@),
            None => node_value(*v) is None,
        },
{
    match v {
        LhmNodeValue::Text(t) => {
            let trimmed = trim_chars(&chars_of(t.as_str()));
            if trimmed.len() > 0 {
                Some(string_of(&trimmed))
            } else {
                None
            }
        },
        LhmNodeValue::Number(t) => Some(t.clone()),
        _ => None,
    }
}

fn collect_sensors(node: &LhmNode, ancestors: &Vec<String>, sensors: &mut Vec<LhmHttpSensor>)
    ensures
        sensors_view(final(sensors)@) == sensors_view(old(sensors)@) + tree_sensors(
            *node,
            ancestors@.map_values(|p: String| p@),
        ),
    decreases *node,
{
    let ghost anc = ancestors@.map_values(|p: String| p@);
    let name = match &node.text {
        Some(t) => string_of(&trim_chars(&chars_of(t.as_str()))),
        None => String::new(),
    };
    assert(name@ == node_name(*node));
    let mut path = ancestors.clone();
    assert(path@.map_values(|p: String| p@) =~= anc);
    if chars_of(name.as_str()).len() > 0 {
        path.push(name.clone());
        assert(path@.map_values(|p: String| p@) =~= anc.push(name@));
    }
    assert(path@.map_values(|p: String| p@) == node_path(*node, anc));
    let ghost before = sensors_view(sensors@);
    match node_value_text(&node.value) {
        Some(value) => {
            let sensor_name = if chars_of(name.as_str()).len() == 0 {
                string_of(&chars_of("sensor"))
            } else {
                name
            };
            let sensor = LhmHttpSensor { path: path.clone(), name: sensor_name, value };
            sensors.push(sensor);
            assert(sensors_view(sensors@) =~= before + own_sensor(*node, anc));
        },
        None => {
            assert(sensors_view(sensors@) =~= before + own_sensor(*node, anc));
        },
    }
    let ghost p = node_path(*node, anc);
    let mut i: usize = 0;
    while i < node.children.len()
        invariant
            0 <= i <= node.children@.len(),
            path@.map_values(|q: String| q@) == p,
            p == node_path(*node, anc),
            sensors_view(sensors@) == before + own_sensor(*node, anc) + forest_sensors(*node, i as int, p),
        decreases node.children.len() - i,
    {
        let ghost mid = sensors_view(sensors@);
        proof {
            assert(decreases_to!(*node => node.children));
            assert(decreases_to!(node.children => node.children@));
            assert(decreases_to!(node.children@ => node.children@[i as int]));
        }
        collect_sensors(&node.children[i], &path, sensors);
        assert(forest_sensors(*node, i + 1, p) == forest_sensors(*node, i as int, p) + tree_sensors(
            node.children@[i as int],
            p,
        ));
        i += 1;
    }
    assert(sensors_view(sensors@) =~= sensors_view(old(sensors)@) + tree_sensors(*node, anc));
}

/// The sensors of the tree under `root`, in depth-first order (each node
/// before its children); a node makes a sensor when its value is a number
/// or a string that is not blank.
pub fn lhm_sensors(root: &LhmNode) -> (r: Vec<LhmHttpSensor>)
    ensures
        sensors_view(r@) == tree_sensors(*root, Seq::<Seq<char>>::empty()),
{
    let mut sensors: Vec<LhmHttpSensor> = Vec::new();
    let ancestors: Vec<String> = Vec::new();
    assert(ancestors@.map_values(|p: String| p@) =~= Seq::<Seq<char>>::empty());
    assert(sensors_view(sensors@) =~= Seq::<SensorView>::empty());
    collect_sensors(root, &ancestors, &mut sensors);
    assert(sensors_view(sensors@) =~= tree_sensors(*root, Seq::<Seq<char>>::empty()));
    sensors
}

} // verus!
