//! Map features: the way records read from a vector map extract, how they
//! are classified into buildings and roads, and the binary records that
//! the feature file is made of.
//!
//! Planar positions, elevations and heights are single-precision floats
//! carried as their IEEE-754 bit patterns.

use vstd::prelude::*;
use crate::buffer::{Buffer, le16, le32};

verus! {

/// Record tag of a building in the feature file.
pub const OBJ_BUILDING: u8 = 0;

/// Record tag of a road in the feature file.
pub const OBJ_ROAD: u8 = 1;

/// A way of the map: its tags in the order they were read, and the ids of
/// its member nodes in path order.
pub struct Way {
    pub tags: Vec<(String, String)>,
    pub nodes: Vec<i64>,
}

/// Tag `i` is the first one whose key is `key`.
pub open spec fn first_with_key(tags: Seq<(String, String)>, key: Seq<char>, i: int) -> bool {
    &&& 0 <= i < tags.len()
    &&& tags[i].0@ == key
    &&& forall|j: int| 0 <= j < i ==> tags[j].0@ != key
}

/// The value of the first tag whose key is `key`, if any.
pub open spec fn tag_value(tags: Seq<(String, String)>, key: Seq<char>) -> Option<Seq<char>> {
    if exists|i: int| first_with_key(tags, key, i) {
        Some(tags[choose|i: int| first_with_key(tags, key, i)].1@)
    } else {
        None
    }
}

fn same_text(a: &str, b: &str) -> (r: bool)
    ensures
        r == (a@ == b@),
{
    a.to_owned() == b.to_owned()
}

/// The kind of a path that a road way stands for.
#[derive(Clone, Copy, Debug, PartialEq, Eq, Structural)]
pub enum RoadClass {
    Road,
    FootPath,
    BikePath,
}

/// What the feature file makes of a way.
#[derive(Clone, Copy, Debug, PartialEq, Eq, Structural)]
pub enum WayKind {
    Building,
    Road(RoadClass),
    /// A road that is left out: a tunnel, a bridge or steps.
    SkippedRoad,
    /// Neither a building nor a road.
    Other,
}

impl RoadClass {
    /// Foot and bike paths are levelled across their width.
    pub fn is_level_path(&self) -> (r: bool)
        ensures
            r == (*self != RoadClass::Road),
    {
        match self {
            RoadClass::Road => false,
            _ => true,
        }
    }
}

impl Way {
    /// The value of the way's tag `key`: the first tag with that key.
    pub fn tag(&self, key: &str) -> (r: Option<&str>)
        ensures
            match r {
                Some(v) => tag_value(self.tags@, key@) == Some(v@),
                None => tag_value(self.tags@, key@) is None,
            },
    {
        let tags = &self.tags;
        let mut i: usize = 0;
        while i < tags.len()
            invariant
                tags@ == self.tags@,
                i <= tags@.len(),
                forall|j: int| 0 <= j < i ==> tags@[j].0@ != key@,
            decreases tags@.len() - i,
        {
            if same_text(tags[i].0.as_str(), key) {
                proof {
                    assert(first_with_key(self.tags@, key@, i as int));
                    let c = choose|c: int| first_with_key(self.tags@, key@, c);
                    assert(c == i) by {
                        if c < i {
                            assert(self.tags@[c].0@ != key@);
                        }
                    }
                }
                let v = tags[i].1.as_str();
                return Some(v);
            }
            i = i + 1;
        }
        None
    }

    /// A building is a way with a `building` tag.
    pub fn is_building(&self) -> (r: bool)
        ensures
            r == tag_value(self.tags@, "building"@) is Some,
    {
        self.tag("building").is_some()
    }

    /// A road is a way with a `highway` tag.
    pub fn is_road(&self) -> (r: bool)
        ensures
            r == tag_value(self.tags@, "highway"@) is Some,
    {
        self.tag("highway").is_some()
    }

    /// A road is one-way when it has a `oneway` tag.
    pub fn is_road_oneway(&self) -> (r: bool)
        ensures
            r == tag_value(self.tags@, "oneway"@) is Some,
    {
        self.tag("oneway").is_some()
    }

    /// Tunnels, bridges and steps are left out of the feature file.
    pub fn should_skip_road(&self) -> (r: bool)
        ensures
            r == (tag_value(self.tags@, "tunnel"@) is Some || tag_value(self.tags@, "bridge"@) is Some
                || tag_value(self.tags@, "highway"@) == Some("steps"@)),
    {
        if self.tag("tunnel").is_some() || self.tag("bridge").is_some() {
            return true;
        }
        match self.tag("highway") {
            Some(v) => same_text(v, "steps"),
            None => false,
        }
    }

    /// Footways and paths (or any way with a `footway` tag) are foot paths,
    /// cycleways are bike paths, everything else is a road.
    pub fn road_class(&self) -> (r: RoadClass)
        ensures
            r == if tag_value(self.tags@, "highway"@) == Some("footway"@) || tag_value(
                self.tags@,
                "highway"@,
            ) == Some("path"@) || tag_value(self.tags@, "footway"@) is Some {
                RoadClass::FootPath
            } else if tag_value(self.tags@, "highway"@) == Some("cycleway"@) {
                RoadClass::BikePath
            } else {
                RoadClass::Road
            },
    {
        let highway = self.tag("highway");
        let (foot, bike) = match highway {
            Some(v) => (same_text(v, "footway") || same_text(v, "path"), same_text(v, "cycleway")),
            None => (false, false),
        };
        if foot || self.tag("footway").is_some() {
            RoadClass::FootPath
        } else if bike {
            RoadClass::BikePath
        } else {
            RoadClass::Road
        }
    }

    /// What the feature file makes of this way: buildings first, then roads
    /// unless they are skipped.
    pub fn kind(&self) -> (r: WayKind)
        ensures
            r == if tag_value(self.tags@, "building"@) is Some {
                WayKind::Building
            } else if tag_value(self.tags@, "highway"@) is Some {
                if tag_value(self.tags@, "tunnel"@) is Some || tag_value(self.tags@, "bridge"@) is Some
                    || tag_value(self.tags@, "highway"@) == Some("steps"@) {
                    WayKind::SkippedRoad
                } else {
                    WayKind::Road(
                        if tag_value(self.tags@, "highway"@) == Some("footway"@) || tag_value(
                            self.tags@,
                            "highway"@,
                        ) == Some("path"@) || tag_value(self.tags@, "footway"@) is Some {
                            RoadClass::FootPath
                        } else if tag_value(self.tags@, "highway"@) == Some("cycleway"@) {
                            RoadClass::BikePath
                        } else {
                            RoadClass::Road
                        },
                    )
                }
            } else {
                WayKind::Other
            },
    {
        if self.is_building() {
            WayKind::Building
        } else if self.is_road() {
            if self.should_skip_road() {
                WayKind::SkippedRoad
            } else {
                WayKind::Road(self.road_class())
            }
        } else {
            WayKind::Other
        }
    }

    /// The node ids of a building footprint: the closed way without its
    /// repeated closing node.
    pub fn footprint_nodes(&self) -> (r: Vec<i64>)
        requires
            self.nodes@.len() >= 1,
        ensures
            r@ == self.nodes@.drop_last(),
    {
        let n = self.nodes.len() - 1;
        let mut r: Vec<i64> = Vec::new();
        let mut i: usize = 0;
        while i < n
            invariant
                n == self.nodes@.len() - 1,
                i <= n,
                r@ == self.nodes@.subrange(0, i as int),
            decreases n - i,
        {
            r.push(self.nodes[i]);
            assert(r@ =~= self.nodes@.subrange(0, i + 1));
            i = i + 1;
        }
        assert(r@ =~= self.nodes@.drop_last());
        r
    }
}

/// What kind of building a footprint stands for.
#[derive(Clone, Copy, Debug, PartialEq, Eq, Structural)]
pub enum BuildingKind {
    House,
    Tower,
    Commercial,
    Industrial,
    Parking,
    School,
    Hospital,
}

/// The shape of a building's roof.
#[derive(Clone, Copy, Debug, PartialEq, Eq, Structural)]
pub enum RoofKind {
    Flat,
}

/// The byte that stands for a building kind in the feature file.
pub open spec fn building_kind_code(k: BuildingKind) -> u8 {
    match k {
        BuildingKind::House => 0,
        BuildingKind::Tower => 1,
        BuildingKind::Commercial => 2,
        BuildingKind::Industrial => 3,
        BuildingKind::Parking => 4,
        BuildingKind::School => 5,
        BuildingKind::Hospital => 6,
    }
}

/// The byte that stands for a roof kind in the feature file.
pub open spec fn roof_kind_code(k: RoofKind) -> u8 {
    match k {
        RoofKind::Flat => 0,
    }
}

impl BuildingKind {
    /// The byte that stands for this kind in the feature file.
    pub fn code(&self) -> (r: u8)
        ensures
            r == building_kind_code(*self),
    {
        match self {
            BuildingKind::House => 0,
            BuildingKind::Tower => 1,
            BuildingKind::Commercial => 2,
            BuildingKind::Industrial => 3,
            BuildingKind::Parking => 4,
            BuildingKind::School => 5,
            BuildingKind::Hospital => 6,
        }
    }
}

impl RoofKind {
    /// The byte that stands for this roof kind in the feature file.
    pub fn code(&self) -> (r: u8)
        ensures
            r == roof_kind_code(*self),
    {
        match self {
            RoofKind::Flat => 0,
        }
    }
}

/// A building of the feature file: its origin (the mean of its nodes), the
/// lowest and highest ground under its footprint, its height, its kind, and
/// its footprint relative to the origin, counter-clockwise, without a
/// repeated closing point.
pub struct BuildingRecord {
    pub origin_x: u32,
    pub origin_y: u32,
    pub ground_min: u32,
    pub ground_max: u32,
    pub height: u32,
    pub kind: BuildingKind,
    pub roof_kind: RoofKind,
    pub footprint: Vec<(u32, u32)>,
}

pub open spec fn points_bytes(pts: Seq<(u32, u32)>) -> Seq<u8>
    decreases pts.len(),
{
    if pts.len() == 0 {
        Seq::empty()
    } else {
        points_bytes(pts.drop_last()) + le32(pts.last().0) + le32(pts.last().1)
    }
}

/// The encoding of a building record.
pub open spec fn building_bytes(b: BuildingRecord) -> Seq<u8> {
    seq![OBJ_BUILDING] + le32(b.origin_x) + le32(b.origin_y) + le32(b.ground_min) + le32(
        b.ground_max,
    ) + le32(b.height) + seq![building_kind_code(b.kind), roof_kind_code(b.roof_kind)] + le16(
        b.footprint@.len() as u16,
    ) + points_bytes(b.footprint@)
}

/// Appends a building record; its footprint count must fit 16 bits.
pub fn write_building(buf: &mut Buffer, b: &BuildingRecord)
    requires
        b.footprint@.len() < 65536,
    ensures
        final(buf)@ == old(buf)@ + building_bytes(*b),
{
    buf.write_byte(OBJ_BUILDING);
    buf.write_float_bits(b.origin_x);
    buf.write_float_bits(b.origin_y);
    buf.write_float_bits(b.ground_min);
    buf.write_float_bits(b.ground_max);
    buf.write_float_bits(b.height);
    buf.write_byte(b.kind.code());
    buf.write_byte(b.roof_kind.code());
    buf.write_short(b.footprint.len() as u16);
    let ghost head = buf@;
    let mut i: usize = 0;
    while i < b.footprint.len()
        invariant
            i <= b.footprint@.len(),
            buf@ == head + points_bytes(b.footprint@.subrange(0, i as int)),
        decreases b.footprint@.len() - i,
    {
        let (x, y) = b.footprint[i];
        buf.write_float_bits(x);
        buf.write_float_bits(y);
        proof {
            let pts = b.footprint@;
            assert(pts.subrange(0, i + 1).drop_last() =~= pts.subrange(0, i as int));
            assert(buf@ =~= head + points_bytes(pts.subrange(0, i + 1)));
        }
        i = i + 1;
    }
    assert(b.footprint@.subrange(0, i as int) =~= b.footprint@);
    assert(buf@ =~= old(buf)@ + building_bytes(*b));
}

/// The road-type byte: 0 for foot and bike paths, 1 for a two-way road, 2
/// for a one-way road.
pub open spec fn road_type_code(class: RoadClass, oneway: bool) -> u8 {
    match class {
        RoadClass::Road => if oneway {
            2
        } else {
            1
        },
        _ => 0,
    }
}

/// The width byte: the lane count of a road, 1 for a path.
pub open spec fn road_width_code(class: RoadClass, lanes: u8) -> u8 {
    match class {
        RoadClass::Road => lanes,
        _ => 1,
    }
}

/// One vertex of a road ribbon: the left and right rail points relative to
/// the road's base, the surface normal and the forward direction.
#[derive(Clone, Copy, Debug)]
pub struct RoadNodeRecord {
    pub left: (u32, u32, u32),
    pub right: (u32, u32, u32),
    pub normal: (u32, u32, u32),
    pub direction: (u32, u32, u32),
}

/// A road of the feature file: its base position and elevation, its class,
/// whether it is one-way, its lane count rounded up, and its ribbon.
pub struct RoadRecord {
    pub base_x: u32,
    pub base_y: u32,
    pub base_elevation: u32,
    pub class: RoadClass,
    pub oneway: bool,
    pub lanes: u8,
    pub nodes: Vec<RoadNodeRecord>,
}

pub open spec fn triple_bytes(t: (u32, u32, u32)) -> Seq<u8> {
    le32(t.0) + le32(t.1) + le32(t.2)
}

pub open spec fn road_node_bytes(n: RoadNodeRecord) -> Seq<u8> {
    triple_bytes(n.left) + triple_bytes(n.right) + triple_bytes(n.normal) + triple_bytes(n.direction)
}

pub open spec fn road_nodes_bytes(ns: Seq<RoadNodeRecord>) -> Seq<u8>
    decreases ns.len(),
{
    if ns.len() == 0 {
        Seq::empty()
    } else {
        road_nodes_bytes(ns.drop_last()) + road_node_bytes(ns.last())
    }
}

/// The encoding of a road record.
pub open spec fn road_bytes(r: RoadRecord) -> Seq<u8> {
    seq![OBJ_ROAD] + le32(r.base_x) + le32(r.base_y) + le32(r.base_elevation) + seq![
        road_type_code(r.class, r.oneway),
        road_width_code(r.class, r.lanes),
    ] + le16(r.nodes@.len() as u16) + road_nodes_bytes(r.nodes@)
}

fn write_triple(buf: &mut Buffer, t: (u32, u32, u32))
    ensures
        final(buf)@ == old(buf)@ + triple_bytes(t),
{
    buf.write_float_bits(t.0);
    buf.write_float_bits(t.1);
    buf.write_float_bits(t.2);
    assert(buf@ =~= old(buf)@ + triple_bytes(t));
}

/// Appends a road record; its node count must fit 16 bits.
pub fn write_road(buf: &mut Buffer, r: &RoadRecord)
    requires
        r.nodes@.len() < 65536,
    ensures
        final(buf)@ == old(buf)@ + road_bytes(*r),
{
    buf.write_byte(OBJ_ROAD);
    buf.write_float_bits(r.base_x);
    buf.write_float_bits(r.base_y);
    buf.write_float_bits(r.base_elevation);
    let (kind, width): (u8, u8) = match r.class {
        RoadClass::Road => (if r.oneway { 2 } else { 1 }, r.lanes),
        _ => (0, 1),
    };
    buf.write_byte(kind);
    buf.write_byte(width);
    buf.write_short(r.nodes.len() as u16);
    let ghost head = buf@;
    let mut i: usize = 0;
    while i < r.nodes.len()
        invariant
            i <= r.nodes@.len(),
            buf@ == head + road_nodes_bytes(r.nodes@.subrange(0, i as int)),
        decreases r.nodes@.len() - i,
    {
        let n = r.nodes[i];
        let ghost before = buf@;
        write_triple(buf, n.left);
        write_triple(buf, n.right);
        write_triple(buf, n.normal);
        write_triple(buf, n.direction);
        proof {
            let ns = r.nodes@;
            assert(buf@ =~= before + road_node_bytes(n));
            assert(ns.subrange(0, i + 1).drop_last() =~= ns.subrange(0, i as int));
            assert(buf@ =~= head + road_nodes_bytes(ns.subrange(0, i + 1)));
        }
        i = i + 1;
    }
    assert(r.nodes@.subrange(0, i as int) =~= r.nodes@);
    assert(buf@ =~= old(buf)@ + road_bytes(*r));
}

} // verus!
