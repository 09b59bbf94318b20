use crate::entities::{entities_view, Entity, EntityView};
use crate::ids::id_keys;
use crate::random::random_below;
use crate::strmap::str_eq;
use std::collections::HashMap;
use crate::strmap::StrMap;
use crate::text::{format_i32, format_u64, int_text, nat_text};
use vstd::prelude::*;
use vstd::string::StringExecFns;

verus! {

/// A request to the server: named text parameters, such as "command",
/// "id", "chunk_x" and "chunk_y".
pub struct PostData {
    pub params: StrMap<String>,
}

impl View for PostData {
    type V = Map<Seq<char>, Seq<char>>;

    open spec fn view(&self) -> Map<Seq<char>, Seq<char>> {
        self.params@
    }
}

impl Clone for PostData {
    fn clone(&self) -> (r: PostData)
        ensures
            r@ == self@,
    {
        PostData { params: self.params.clone() }
    }
}

impl PostData {
    /// A request with no parameters.
    pub fn new() -> (r: PostData)
        ensures
            r@ == Map::<Seq<char>, Seq<char>>::empty(),
    {
        PostData { params: StrMap::new() }
    }

    /// Sets parameter `key` to `value`.
    pub fn set(&mut self, key: &str, value: String)
        ensures
            final(self)@ == old(self)@.insert(key@, value@),
    {
        self.params.insert(String::from_str(key), value);
    }

    /// Sets parameter `key` to the decimal text of `value`.
    pub fn set_u64(&mut self, key: &str, value: u64)
        ensures
            final(self)@ == old(self)@.insert(key@, nat_text(value as nat)),
    {
        self.set(key, format_u64(value));
    }

    /// Sets parameter `key` to the decimal text of `value`.
    pub fn set_i32(&mut self, key: &str, value: i32)
        ensures
            final(self)@ == old(self)@.insert(key@, int_text(value as int)),
    {
        self.set(key, format_i32(value));
    }

    /// The value of parameter `key`, if it is set.
    pub fn get(&self, key: &str) -> (r: Option<&String>)
        ensures
            match r {
                Some(v) => self@.contains_key(key@) && v@ == self@[key@],
                None => !self@.contains_key(key@),
            },
    {
        self.params.get(key)
    }
}

/// The requests waiting for the server, oldest first.
pub struct ActionQueue {
    pub queue: Vec<PostData>,
}

/// What the requests of a queue stand for, oldest first.
pub open spec fn queue_view(q: Seq<PostData>) -> Seq<Map<Seq<char>, Seq<char>>> {
    q.map_values(|d: PostData| d@)
}

impl ActionQueue {
    /// An empty queue.
    pub fn new() -> (r: ActionQueue)
        ensures
            r.queue@.len() == 0,
    {
        ActionQueue { queue: Vec::new() }
    }

    /// Takes the oldest request out of the queue, if there is one.
    pub fn take_next(&mut self) -> (r: Option<PostData>)
        ensures
            old(self).queue@.len() == 0 ==> r is None && final(self).queue@ == old(self).queue@,
            old(self).queue@.len() > 0 ==> r == Some(old(self).queue@[0]) && final(self).queue@
                == old(self).queue@.drop_first(),
    {
        if self.queue.len() > 0 {
            let first = self.queue.remove(0);
            assert(self.queue@ =~= old(self).queue@.drop_first());
            Some(first)
        } else {
            None
        }
    }
}

/// Puts a request at the back of the queue.
pub fn add_to_queue(q: &mut ActionQueue, data: PostData)
    ensures
        final(q).queue@ == old(q).queue@.push(data),
{
    q.queue.push(data);
}

/// The four directions a creature can wander in.
pub struct MoveSet {
    directions: Vec<String>,
}

impl MoveSet {
    /// The directions, in their order.
    pub closed spec fn directions(self) -> Seq<Seq<char>> {
        self.directions@.map_values(|s: String| s@)
    }
}

/// The four directions: "up", "down", "left", "right".
pub open spec fn all_directions() -> Seq<Seq<char>> {
    seq!["up"@, "down"@, "left"@, "right"@]
}

impl Default for MoveSet {
    fn default() -> (r: MoveSet)
        ensures
            r.directions() == all_directions(),
    {
        let r = MoveSet {
            directions: vec![
                String::from_str("up"),
                String::from_str("down"),
                String::from_str("left"),
                String::from_str("right"),
            ],
        };
        assert(r.directions() =~= all_directions());
        r
    }
}

impl MoveSet {
    /// One of the directions, drawn at random.
    pub fn get_direction(&self) -> (r: String)
        requires
            self.directions().len() > 0,
        ensures
            self.directions().contains(r@),
    {
        let i = random_below(self.directions.len());
        let r = self.directions[i].clone();
        assert(self.directions()[i as int] == r@);
        r
    }
}


// ---------------------------------------------------------------------------
// The creatures that act on their own.
// ---------------------------------------------------------------------------

/// The first chunk of the window around chunk `c`: the one before it, or 0.
pub open spec fn window_start(c: i32) -> int {
    if c - 1 < 0 {
        0
    } else {
        c - 1
    }
}

/// The end (exclusive) of the window around chunk `c` in a world of `n`
/// chunks: two after it, or the last chunk's number, whichever is lower.
pub open spec fn window_end(c: i32, n: u32) -> int {
    if c + 2 > (n as i32) - 1 {
        (n as i32) - 1
    } else {
        c + 2
    }
}

/// The chunks whose creatures act around a player in chunk (`chunk_x`,
/// `chunk_y`): columns `r.0..r.2` and rows `r.1..r.3`.
pub fn chunk_window(chunk_x: i32, chunk_y: i32, world_width: u32, world_height: u32) -> (r: (
    i32,
    i32,
    i32,
    i32,
))
    requires
        i32::MIN < chunk_x <= i32::MAX - 2,
        i32::MIN < chunk_y <= i32::MAX - 2,
        (world_width as i32) > i32::MIN,
        (world_height as i32) > i32::MIN,
    ensures
        r.0 == window_start(chunk_x),
        r.1 == window_start(chunk_y),
        r.2 == window_end(chunk_x, world_width),
        r.3 == window_end(chunk_y, world_height),
{
    let mut lx = chunk_x - 1;
    let mut ly = chunk_y - 1;
    let mut rx = chunk_x + 2;
    let mut ry = chunk_y + 2;
    if lx < 0 {
        lx = 0;
    }
    if ly < 0 {
        ly = 0;
    }
    if rx > world_width as i32 - 1 {
        rx = world_width as i32 - 1;
    }
    if ry > world_height as i32 - 1 {
        ry = world_height as i32 - 1;
    }
    (lx, ly, rx, ry)
}

/// Whether `b` stands closer than two squares to `a`.
pub open spec fn near(a: EntityView, b: EntityView) -> bool {
    (a.x - b.x) * (a.x - b.x) + (a.y - b.y) * (a.y - b.y) < 4
}

/// Whether the creature `k` of `m` is another creature near `e`.
pub open spec fn prey(e: EntityView, m: Map<u64, EntityView>, k: u64) -> bool {
    m.contains_key(k) && near(e, m[k]) && m[k].id != e.id
}

/// The request to move creature `id` of chunk (`cx`, `cy`) in `dir`.
pub open spec fn move_request(id: u64, dir: Seq<char>, cx: i32, cy: i32) -> Map<Seq<char>, Seq<char>> {
    Map::empty().insert("command"@, "move"@).insert("move_dir"@, dir).insert(
        "id"@,
        nat_text(id as nat),
    ).insert("chunk_x"@, int_text(cx as int)).insert("chunk_y"@, int_text(cy as int))
}

/// The request for creature `e` to attack creature `target` automatically.
pub open spec fn attack_request(e: EntityView, target: u64) -> Map<Seq<char>, Seq<char>> {
    Map::empty().insert("command"@, "attack"@).insert("type"@, "auto"@).insert(
        "id"@,
        nat_text(e.id as nat),
    ).insert("target_id"@, nat_text(target as nat)).insert(
        "chunk_x"@,
        int_text(e.chunk_x as int),
    ).insert("chunk_y"@, int_text(e.chunk_y as int))
}

/// Whether `req` is what a coyote `e` of chunk (`cx`, `cy`) asks for, given
/// the creatures `m` of its chunk and the direction `dir` it drew: to attack
/// another creature near it, where there is one, else to move in `dir`.
pub open spec fn coyote_request_ok(
    e: EntityView,
    m: Map<u64, EntityView>,
    cx: i32,
    cy: i32,
    dir: Seq<char>,
    req: Map<Seq<char>, Seq<char>>,
) -> bool {
    if exists|k: u64| prey(e, m, k) {
        exists|k: u64| prey(e, m, k) && req == attack_request(e, m[k].id)
    } else {
        req == move_request(e.id, dir, cx, cy)
    }
}

fn near_exec(a: &Entity, b: &Entity) -> (r: bool)
    ensures
        r == near(a@, b@),
{
    let dx: i128 = a.x as i128 - b.x as i128;
    let dy: i128 = a.y as i128 - b.y as i128;
    assert(0 <= dx * dx <= 0x1_0000_0000_0000_0000) by (nonlinear_arith)
        requires
            -0x1_0000_0000 <= dx <= 0x1_0000_0000,
    ;
    assert(0 <= dy * dy <= 0x1_0000_0000_0000_0000) by (nonlinear_arith)
        requires
            -0x1_0000_0000 <= dy <= 0x1_0000_0000,
    ;
    dx * dx + dy * dy < 4
}

/// What the coyote `e` of chunk (`cx`, `cy`) asks for: to attack the first
/// other creature of its chunk it finds near it, else to move in `dir`.
pub fn coyote_request(e: &Entity, chunk: &HashMap<u64, Entity>, cx: i32, cy: i32, dir: String) -> (r:
    PostData)
    ensures
        coyote_request_ok(e@, entities_view(chunk@), cx, cy, dir@, r@),
{
    let ghost m = entities_view(chunk@);
    let keys = id_keys(chunk);
    let mut i: usize = 0;
    while i < keys.len()
        invariant
            m == entities_view(chunk@),
            keys@.to_set() == chunk@.dom(),
            0 <= i <= keys@.len(),
            forall|j: int| 0 <= j < i ==> !prey(e@, m, #[trigger] keys@[j]),
        decreases keys@.len() - i,
    {
        let k = keys[i];
        assert(keys@.to_set().contains(k));
        let other = chunk.get(&k).unwrap();
        assert(m[k] == other@);
        if near_exec(e, other) && other.id != e.id {
            let mut r = PostData::new();
            r.set("command", String::from_str("attack"));
            r.set("type", String::from_str("auto"));
            r.set_u64("id", e.id);
            r.set_u64("target_id", other.id);
            r.set_i32("chunk_x", e.chunk_x);
            r.set_i32("chunk_y", e.chunk_y);
            assert(prey(e@, m, k));
            assert(r@ == attack_request(e@, m[k].id));
            return r;
        }
        i = i + 1;
    }
    assert(!exists|k: u64| prey(e@, m, k)) by {
        if exists|k: u64| prey(e@, m, k) {
            let k = choose|k: u64| prey(e@, m, k);
            assert(chunk@.dom().contains(k));
            assert(keys@.to_set().contains(k));
            let j = choose|j: int| 0 <= j < keys@.len() && keys@[j] == k;
            assert(!prey(e@, m, keys@[j]));
        }
    }
    let mut r = PostData::new();
    r.set("command", String::from_str("move"));
    r.set("move_dir", dir);
    r.set_u64("id", e.id);
    r.set_i32("chunk_x", cx);
    r.set_i32("chunk_y", cy);
    r
}

/// Whether `reqs` are the requests of the coyotes of the creatures `m` of
/// chunk (`cx`, `cy`), one each, in some order, each for a direction drawn
/// from the four.
pub open spec fn coyote_requests_ok(
    m: Map<u64, EntityView>,
    cx: i32,
    cy: i32,
    reqs: Seq<Map<Seq<char>, Seq<char>>>,
) -> bool {
    exists|ks: Seq<u64>, dirs: Seq<Seq<char>>|
        {
            &&& ks.no_duplicates()
            &&& ks.to_set() == m.dom().filter(|k: u64| m[k].entity_type == "coyote"@)
            &&& ks.len() == reqs.len()
            &&& dirs.len() == reqs.len()
            &&& forall|i: int| 0 <= i < reqs.len() ==> all_directions().contains(#[trigger] dirs[i])
            &&& forall|i: int|
                0 <= i < reqs.len() ==> coyote_request_ok(
                    m[#[trigger] ks[i]],
                    m,
                    cx,
                    cy,
                    dirs[i],
                    reqs[i],
                )
        }
}

/// Queues what the coyotes of chunk (`cx`, `cy`) do this turn: each attacks
/// another creature near it, or else moves in a direction drawn at random.
pub fn queue_coyote_actions(q: &mut ActionQueue, chunk: &HashMap<u64, Entity>, cx: i32, cy: i32)
    ensures
        final(q).queue@.len() >= old(q).queue@.len(),
        final(q).queue@.take(old(q).queue@.len() as int) == old(q).queue@,
        coyote_requests_ok(
            entities_view(chunk@),
            cx,
            cy,
            queue_view(final(q).queue@.skip(old(q).queue@.len() as int)),
        ),
{
    let ghost m = entities_view(chunk@);
    let ghost start = q.queue@.len() as int;
    let ghost coyotes = m.dom().filter(|k: u64| m[k].entity_type == "coyote"@);
    let keys = id_keys(chunk);
    let ghost mut ks: Seq<u64> = Seq::empty();
    let ghost mut dirs: Seq<Seq<char>> = Seq::empty();
    let mut i: usize = 0;
    while i < keys.len()
        invariant
            m == entities_view(chunk@),
            coyotes == m.dom().filter(|k: u64| m[k].entity_type == "coyote"@),
            keys@.no_duplicates(),
            keys@.to_set() == chunk@.dom(),
            0 <= i <= keys@.len(),
            q.queue@.len() == start + ks.len(),
            q.queue@.take(start) == old(q).queue@,
            start == old(q).queue@.len(),
            ks.len() == dirs.len(),
            ks.no_duplicates(),
            ks.to_set() == keys@.take(i as int).to_set().filter(|k: u64| m[k].entity_type == "coyote"@),
            forall|j: int| 0 <= j < ks.len() ==> all_directions().contains(#[trigger] dirs[j]),
            forall|j: int|
                0 <= j < ks.len() ==> coyote_request_ok(
                    m[#[trigger] ks[j]],
                    m,
                    cx,
                    cy,
                    dirs[j],
                    q.queue@[start + j]@,
                ),
        decreases keys@.len() - i,
    {
        let k = keys[i];
        assert(keys@.to_set().contains(k));
        let e = chunk.get(&k).unwrap();
        assert(m[k] == e@);
        let ghost ks0 = ks;
        proof {
            assert(keys@.take(i + 1) =~= keys@.take(i as int).push(k));
            keys@.take(i as int).lemma_push_to_set_commute(k);
            assert(!keys@.take(i as int).contains(k)) by {
                if keys@.take(i as int).contains(k) {
                    let j = choose|j: int| 0 <= j < i && keys@.take(i as int)[j] == k;
                    assert(keys@[j] == keys@[i as int]);
                }
            }
            assert(!ks.contains(k)) by {
                if ks.contains(k) {
                    let j = choose|j: int| 0 <= j < ks.len() && ks[j] == k;
                    assert(ks.to_set().contains(k));
                }
            }
        }
        if str_eq(e.entity_type.as_str(), "coyote") {
            let moveset = MoveSet::default();
            let dir = moveset.get_direction();
            let ghost d = dir@;
            let req = coyote_request(e, chunk, cx, cy, dir);
            let ghost qv = q.queue@;
            q.queue.push(req);
            proof {
                ks = ks.push(k);
                dirs = dirs.push(d);
                assert(q.queue@.take(start) =~= qv.take(start));
                assert forall|j: int| 0 <= j < ks.len() implies coyote_request_ok(
                    m[#[trigger] ks[j]],
                    m,
                    cx,
                    cy,
                    dirs[j],
                    q.queue@[start + j]@,
                ) by {
                    if j < ks.len() - 1 {
                        assert(ks[j] == ks0[j]);
                        assert(q.queue@[start + j] == qv[start + j]);
                    }
                }
                assert(ks.to_set() =~= ks0.to_set().insert(k)) by {
                    ks0.lemma_push_to_set_commute(k);
                }
                assert(ks.no_duplicates()) by {
                    assert forall|a: int, b: int| 0 <= a < b < ks.len() implies ks[a] != ks[b] by {
                        if b == ks.len() - 1 {
                            assert(ks[a] == ks0[a]);
                            assert(ks0.contains(ks0[a]));
                        }
                    }
                }
                assert(ks.to_set() =~= keys@.take(i + 1).to_set().filter(
                    |k: u64| m[k].entity_type == "coyote"@,
                ));
            }
        } else {
            proof {
                assert(ks.to_set() =~= keys@.take(i + 1).to_set().filter(
                    |k: u64| m[k].entity_type == "coyote"@,
                ));
            }
        }
        i = i + 1;
    }
    proof {
        assert(keys@.take(keys@.len() as int) =~= keys@);
        let added = queue_view(q.queue@.skip(start));
        assert(added.len() == ks.len());
        assert(ks.to_set() =~= coyotes);
        assert forall|j: int| 0 <= j < added.len() implies coyote_request_ok(
            m[#[trigger] ks[j]],
            m,
            cx,
            cy,
            dirs[j],
            added[j],
        ) by {
            assert(added[j] == q.queue@[start + j]@);
        }
        assert(coyote_requests_ok(m, cx, cy, added));
    }
}

} // verus!
