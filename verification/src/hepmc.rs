//! Sub-events as particle graphs in the manner of HepMC: one auxiliary
//! vertex that the incoming particles enter and the outgoing particles
//! leave.
//!
//! The graph types hold what the conversion reads and writes. The angles of
//! a particle are floating-point arithmetic on its momentum and are not held
//! here.

use vstd::prelude::*;
use particle_id::ParticleID;
use crate::error::{ParseErr, ParseErrView};
use crate::event::{
    Id, IdView, Momentum, Particle, ParticleView, Status, SubEvent, SubEventView,
};
use crate::float::Float;
use crate::integer::{i32_to_string, integer_text};
use crate::text::seq_view;

verus! {

/// The status code of a particle that enters the interaction.
pub const INCOMING_STATUS: i32 = 4;

/// The status code of a particle in the final state.
pub const OUTGOING_STATUS: i32 = 1;

/// The barcode of the auxiliary vertex. It is negative, as the barcode of
/// every vertex is.
pub const VERTEX_ID: i32 = -1;

/// The unit of energies and momenta.
#[derive(Clone, Copy, Debug, PartialEq, Eq, Hash, Structural)]
pub enum EnergyUnit {
    MEV,
    GEV,
}

/// The unit of lengths.
#[derive(Clone, Copy, Debug, PartialEq, Eq, Hash, Structural)]
pub enum LengthUnit {
    MM,
    CM,
}

/// A particle of a graph.
#[derive(Debug, PartialEq, Eq, Hash)]
pub struct GraphParticle {
    /// The code of the particle's kind.
    pub id: i32,
    pub momentum: Momentum,
    pub status: i32,
    /// The barcode of the vertex that the particle enters; zero if it enters
    /// none.
    pub end_vtx: i32,
}

impl Clone for GraphParticle {
    fn clone(&self) -> (r: Self)
        ensures
            r@ == self@,
    {
        GraphParticle {
            id: self.id,
            momentum: self.momentum.clone(),
            status: self.status,
            end_vtx: self.end_vtx,
        }
    }
}

/// A [`GraphParticle`] with its momentum as literals.
pub struct GraphParticleView {
    pub id: i32,
    pub momentum: Seq<Seq<char>>,
    pub status: i32,
    pub end_vtx: i32,
}

impl View for GraphParticle {
    type V = GraphParticleView;

    open spec fn view(&self) -> GraphParticleView {
        GraphParticleView {
            id: self.id,
            momentum: self.momentum@,
            status: self.status,
            end_vtx: self.end_vtx,
        }
    }
}

/// A vertex of a graph, with the particles that enter it and those that
/// leave it.
#[derive(Debug, PartialEq, Eq, Hash)]
pub struct GraphVertex {
    pub barcode: i32,
    pub particles_in: Vec<GraphParticle>,
    pub particles_out: Vec<GraphParticle>,
}

impl Clone for GraphVertex {
    fn clone(&self) -> (r: Self)
        ensures
            r@ == self@,
    {
        let particles_in = self.particles_in.clone();
        let particles_out = self.particles_out.clone();
        assert(seq_view(particles_in@) =~= seq_view(self.particles_in@));
        assert(seq_view(particles_out@) =~= seq_view(self.particles_out@));
        GraphVertex { barcode: self.barcode, particles_in, particles_out }
    }
}

/// A [`GraphVertex`] by the views of its particles.
pub struct GraphVertexView {
    pub barcode: i32,
    pub particles_in: Seq<GraphParticleView>,
    pub particles_out: Seq<GraphParticleView>,
}

impl View for GraphVertex {
    type V = GraphVertexView;

    open spec fn view(&self) -> GraphVertexView {
        GraphVertexView {
            barcode: self.barcode,
            particles_in: seq_view(self.particles_in@),
            particles_out: seq_view(self.particles_out@),
        }
    }
}

/// An event as a graph of particles and vertices.
#[derive(Debug, PartialEq, Eq, Hash)]
pub struct GraphEvent {
    pub scale: Float,
    pub weights: Vec<Float>,
    pub vertices: Vec<GraphVertex>,
    pub energy_unit: EnergyUnit,
    pub length_unit: LengthUnit,
}

impl Clone for GraphEvent {
    fn clone(&self) -> (r: Self)
        ensures
            r@ == self@,
    {
        let weights = self.weights.clone();
        let vertices = self.vertices.clone();
        assert(seq_view(weights@) =~= seq_view(self.weights@));
        assert(seq_view(vertices@) =~= seq_view(self.vertices@));
        GraphEvent {
            scale: self.scale.clone(),
            weights,
            vertices,
            energy_unit: self.energy_unit,
            length_unit: self.length_unit,
        }
    }
}

/// A [`GraphEvent`] by the views of its parts.
pub struct GraphEventView {
    pub scale: Seq<char>,
    pub weights: Seq<Seq<char>>,
    pub vertices: Seq<GraphVertexView>,
    pub energy_unit: EnergyUnit,
    pub length_unit: LengthUnit,
}

impl View for GraphEvent {
    type V = GraphEventView;

    open spec fn view(&self) -> GraphEventView {
        GraphEventView {
            scale: self.scale@,
            weights: seq_view(self.weights@),
            vertices: seq_view(self.vertices@),
            energy_unit: self.energy_unit,
            length_unit: self.length_unit,
        }
    }
}

/// The status code that a status is exported as.
pub open spec fn status_code(status: Status) -> i32 {
    match status {
        Status::Incoming => INCOMING_STATUS,
        Status::Outgoing => OUTGOING_STATUS,
    }
}

/// The status that a status code is imported as, if it is one of the two
/// that are.
pub open spec fn status_of_code(code: i32) -> Option<Status> {
    if code == INCOMING_STATUS {
        Some(Status::Incoming)
    } else if code == OUTGOING_STATUS {
        Some(Status::Outgoing)
    } else {
        None
    }
}

/// A particle as a particle of a graph, attached to no vertex.
pub open spec fn exported_particle(p: ParticleView) -> GraphParticleView {
    GraphParticleView {
        id: p.id.code,
        momentum: p.momentum,
        status: status_code(p.id.status),
        end_vtx: 0,
    }
}

/// The particle, entering the auxiliary vertex.
pub open spec fn attached(p: GraphParticleView) -> GraphParticleView {
    GraphParticleView { end_vtx: VERTEX_ID, ..p }
}

/// A particle of a graph as a particle of a sub-event. Its status code must
/// be one of the two that are imported.
pub open spec fn imported_particle(p: GraphParticleView) -> ParticleView {
    ParticleView {
        id: IdView { status: status_of_code(p.status)->Some_0, code: p.id },
        momentum: p.momentum,
    }
}

/// Whether a particle is incoming.
pub open spec fn is_incoming() -> spec_fn(ParticleView) -> bool {
    |p: ParticleView| p.id.status == Status::Incoming
}

/// Whether a particle is outgoing.
pub open spec fn is_outgoing() -> spec_fn(ParticleView) -> bool {
    |p: ParticleView| p.id.status == Status::Outgoing
}

/// Whether a particle of a graph has the status code `code`.
pub open spec fn has_status(code: i32) -> spec_fn(GraphParticleView) -> bool {
    |p: GraphParticleView| p.status == code
}

/// [`exported_particle`] as a function.
pub open spec fn export_free() -> spec_fn(ParticleView) -> GraphParticleView {
    |p: ParticleView| exported_particle(p)
}

/// [`exported_particle`], then [`attached`], as a function.
pub open spec fn export_attached() -> spec_fn(ParticleView) -> GraphParticleView {
    |p: ParticleView| attached(exported_particle(p))
}

/// [`imported_particle`] as a function.
pub open spec fn import() -> spec_fn(GraphParticleView) -> ParticleView {
    |p: GraphParticleView| imported_particle(p)
}

/// The incoming particles among `particles`, in order, each as a particle of
/// a graph that enters the auxiliary vertex.
pub open spec fn exported_incoming(particles: Seq<ParticleView>) -> Seq<GraphParticleView> {
    particles.filter(is_incoming()).map_values(export_attached())
}

/// The outgoing particles among `particles`, in order, each as a particle of
/// a graph.
pub open spec fn exported_outgoing(particles: Seq<ParticleView>) -> Seq<GraphParticleView> {
    particles.filter(is_outgoing()).map_values(export_free())
}

/// The graph of a sub-event: one auxiliary vertex with the incoming
/// particles entering and the outgoing particles leaving, the sub-event's
/// weight as the only weight, its renormalisation scale as the scale, and
/// energies in GeV, lengths in mm.
pub open spec fn exported(se: SubEventView) -> GraphEventView {
    GraphEventView {
        scale: se.mu_r,
        weights: seq![se.weight],
        vertices: seq![
            GraphVertexView {
                barcode: VERTEX_ID,
                particles_in: exported_incoming(se.particles),
                particles_out: exported_outgoing(se.particles),
            },
        ],
        energy_unit: EnergyUnit::GEV,
        length_unit: LengthUnit::MM,
    }
}

/// The particles of a vertex that are imported: of those that enter it the
/// ones with the status code of an incoming particle, then of those that
/// leave it the ones with the status code of an outgoing particle.
pub open spec fn kept_of_vertex(v: GraphVertexView) -> Seq<GraphParticleView> {
    v.particles_in.filter(has_status(INCOMING_STATUS)) + v.particles_out.filter(
        has_status(OUTGOING_STATUS),
    )
}

/// The particles of the vertices that are imported, vertex by vertex.
pub open spec fn kept(vertices: Seq<GraphVertexView>) -> Seq<GraphParticleView>
    decreases vertices.len(),
{
    if vertices.len() == 0 {
        Seq::empty()
    } else {
        kept(vertices.drop_last()) + kept_of_vertex(vertices.last())
    }
}

/// The sub-event of a graph: the particles that are imported, the first
/// weight or zero if there is none, the scale as the renormalisation scale.
/// A graph has no factorisation scale and no reweighting entries: the one is
/// zero, the others are none.
pub open spec fn imported(g: GraphEventView) -> SubEventView {
    SubEventView {
        weight: if g.weights.len() > 0 {
            g.weights[0]
        } else {
            seq!['0']
        },
        mu_r: g.scale,
        mu_f: seq!['0'],
        particles: kept(g.vertices).map_values(import()),
        reweight: Seq::empty(),
    }
}

impl Particle {
    /// The particle as a particle of a graph, attached to no vertex.
    pub fn to_graph(&self) -> (r: GraphParticle)
        ensures
            r@ == exported_particle(self@),
    {
        let status = match self.id.status {
            Status::Incoming => INCOMING_STATUS,
            Status::Outgoing => OUTGOING_STATUS,
        };
        GraphParticle {
            id: self.id.pdg_id.id(),
            momentum: self.momentum.clone(),
            status,
            end_vtx: 0,
        }
    }

    /// The particle of a graph as a particle of a sub-event. A status code
    /// other than those of incoming and outgoing particles is an error,
    /// which carries the code as it is written.
    pub fn from_graph(p: &GraphParticle) -> (r: Result<Particle, ParseErr>)
        ensures
            match r {
                Ok(particle) => status_of_code(p.status) is Some && particle@ == imported_particle(
                    p@,
                ),
                Err(e) => status_of_code(p.status) is None && e@ == ParseErrView::Status(
                    integer_text(p.status as int),
                ),
            },
    {
        let status = if p.status == INCOMING_STATUS {
            Status::Incoming
        } else if p.status == OUTGOING_STATUS {
            Status::Outgoing
        } else {
            return Err(ParseErr::Status(i32_to_string(p.status)));
        };
        Ok(
            Particle {
                id: Id { status, pdg_id: ParticleID::new(p.id) },
                momentum: p.momentum.clone(),
            },
        )
    }
}

impl SubEvent {
    /// The sub-event as a graph.
    pub fn to_graph(&self) -> (g: GraphEvent)
        ensures
            g@ == exported(self@),
    {
        let mut incoming: Vec<GraphParticle> = Vec::new();
        let mut outgoing: Vec<GraphParticle> = Vec::new();
        let ghost particles = self@.particles;
        let n = self.particles.len();
        let mut i: usize = 0;
        proof {
            reveal(Seq::filter);
            assert(seq_view(incoming@) =~= exported_incoming(particles.take(0)));
            assert(seq_view(outgoing@) =~= exported_outgoing(particles.take(0)));
        }
        while i < n
            invariant
                i <= n,
                n == self.particles.len(),
                particles == self@.particles,
                seq_view(incoming@) == exported_incoming(particles.take(i as int)),
                seq_view(outgoing@) == exported_outgoing(particles.take(i as int)),
            decreases n - i,
        {
            let particle = &self.particles[i];
            let ghost before_in = seq_view(incoming@);
            let ghost before_out = seq_view(outgoing@);
            proof {
                reveal(Seq::filter);
                assert(particles.take(i + 1).drop_last() =~= particles.take(i as int));
                assert(particles.take(i + 1).last() == particle@);
            }
            match particle.id.status {
                Status::Outgoing => {
                    let p = particle.to_graph();
                    outgoing.push(p);
                    proof {
                        assert(seq_view(outgoing@) =~= before_out.push(p@));
                        assert(seq_view(outgoing@) =~= exported_outgoing(particles.take(i + 1)));
                    }
                },
                Status::Incoming => {
                    let mut p = particle.to_graph();
                    p.end_vtx = VERTEX_ID;
                    incoming.push(p);
                    proof {
                        assert(seq_view(incoming@) =~= before_in.push(p@));
                        assert(seq_view(incoming@) =~= exported_incoming(particles.take(i + 1)));
                    }
                },
            }
            i += 1;
        }
        assert(particles.take(n as int) =~= particles);
        let vertex = GraphVertex {
            barcode: VERTEX_ID,
            particles_in: incoming,
            particles_out: outgoing,
        };
        let mut vertices: Vec<GraphVertex> = Vec::new();
        vertices.push(vertex);
        let mut weights: Vec<Float> = Vec::new();
        weights.push(self.weight.clone());
        let g = GraphEvent {
            scale: self.mu_r.clone(),
            weights,
            vertices,
            energy_unit: EnergyUnit::GEV,
            length_unit: LengthUnit::MM,
        };
        proof {
            assert(g@.weights =~= seq![self@.weight]);
            assert(g@.vertices =~= exported(self@).vertices);
        }
        g
    }
}

/// Appends to `particles` those of `from` that have the status code
/// `status`, each as a particle of a sub-event.
fn push_kept(particles: &mut Vec<Particle>, from: &Vec<GraphParticle>, status: i32)
    requires
        status == INCOMING_STATUS || status == OUTGOING_STATUS,
    ensures
        seq_view(final(particles)@) == seq_view(old(particles)@) + seq_view(from@).filter(
            has_status(status),
        ).map_values(import()),
{
    let ghost all = seq_view(from@);
    let ghost start = seq_view(particles@);
    let n = from.len();
    let mut i: usize = 0;
    proof {
        reveal(Seq::filter);
        assert(seq_view(particles@) =~= start + all.take(0).filter(has_status(status)).map_values(
            import(),
        ));
    }
    while i < n
        invariant
            i <= n,
            n == from.len(),
            all == seq_view(from@),
            status == INCOMING_STATUS || status == OUTGOING_STATUS,
            seq_view(particles@) == start + all.take(i as int).filter(
                has_status(status),
            ).map_values(import()),
        decreases n - i,
    {
        proof {
            reveal(Seq::filter);
            assert(all.take(i + 1).drop_last() =~= all.take(i as int));
            assert(all.take(i + 1).last() == from[i as int]@);
        }
        if from[i].status == status {
            match Particle::from_graph(&from[i]) {
                Ok(particle) => {
                    let ghost before = seq_view(particles@);
                    particles.push(particle);
                    proof {
                        assert(seq_view(particles@) =~= before.push(particle@));
                        assert(seq_view(particles@) =~= start + all.take(i + 1).filter(
                            has_status(status),
                        ).map_values(import()));
                    }
                },
                Err(_) => {
                    assert(false);
                },
            }
        }
        i += 1;
    }
    assert(all.take(n as int) =~= all);
}

impl SubEvent {
    /// The sub-event of a graph. Particles with a status code other than
    /// those of incoming and outgoing particles are left out.
    pub fn from_graph(g: &GraphEvent) -> (se: SubEvent)
        ensures
            se@ == imported(g@),
    {
        let mut particles: Vec<Particle> = Vec::new();
        let ghost vertices = g@.vertices;
        let n = g.vertices.len();
        let mut i: usize = 0;
        assert(seq_view(particles@) =~= kept(vertices.take(0)).map_values(import()));
        while i < n
            invariant
                i <= n,
                n == g.vertices.len(),
                vertices == g@.vertices,
                seq_view(particles@) == kept(vertices.take(i as int)).map_values(import()),
            decreases n - i,
        {
            let vertex = &g.vertices[i];
            let ghost before = seq_view(particles@);
            push_kept(&mut particles, &vertex.particles_in, INCOMING_STATUS);
            push_kept(&mut particles, &vertex.particles_out, OUTGOING_STATUS);
            proof {
                assert(vertices.take(i + 1).drop_last() =~= vertices.take(i as int));
                assert(vertices.take(i + 1).last() == vertex@);
                assert(seq_view(particles@) =~= kept(vertices.take(i + 1)).map_values(import()));
            }
            i += 1;
        }
        assert(vertices.take(n as int) =~= vertices);
        let weight = if g.weights.len() > 0 {
            g.weights[0].clone()
        } else {
            Float::zero()
        };
        let se = SubEvent {
            weight,
            mu_r: g.scale.clone(),
            mu_f: Float::zero(),
            particles,
            reweight: Vec::new(),
        };
        assert(se@.reweight =~= Seq::empty());
        se
    }
}

/// Filtering keeps a sequence as it is if all its items pass.
proof fn lemma_filter_all<A>(s: Seq<A>, pred: spec_fn(A) -> bool)
    requires
        forall|i: int| 0 <= i < s.len() ==> pred(#[trigger] s[i]),
    ensures
        s.filter(pred) == s,
    decreases s.len(),
{
    reveal(Seq::filter);
    if s.len() > 0 {
        lemma_filter_all(s.drop_last(), pred);
        assert(s.drop_last().push(s.last()) =~= s);
    }
}

/// Exporting a sub-event and importing the graph gives the sub-event's
/// weight, renormalisation scale and particles back: the incoming ones
/// first, then the outgoing ones, each group in its order. The
/// factorisation scale comes back as zero and the reweighting entries are
/// gone.
pub proof fn lemma_import_export(se: SubEventView)
    ensures
        imported(exported(se)) == (SubEventView {
            weight: se.weight,
            mu_r: se.mu_r,
            mu_f: seq!['0'],
            particles: se.particles.filter(is_incoming()) + se.particles.filter(is_outgoing()),
            reweight: Seq::empty(),
        }),
        exported(se).vertices.len() == 1,
{
    let g = exported(se);
    let v = g.vertices[0];
    let incoming = se.particles.filter(is_incoming());
    let outgoing = se.particles.filter(is_outgoing());
    assert forall|i: int| 0 <= i < incoming.len() implies is_incoming()(
        #[trigger] incoming[i],
    ) by {
        se.particles.lemma_filter_pred(is_incoming(), i);
    }
    assert forall|i: int| 0 <= i < outgoing.len() implies is_outgoing()(
        #[trigger] outgoing[i],
    ) by {
        se.particles.lemma_filter_pred(is_outgoing(), i);
    }
    lemma_filter_all(v.particles_in, has_status(INCOMING_STATUS));
    lemma_filter_all(v.particles_out, has_status(OUTGOING_STATUS));
    assert(g.vertices.drop_last() =~= Seq::empty());
    assert(kept(g.vertices.drop_last()) =~= Seq::empty());
    assert(kept_of_vertex(g.vertices.last()) =~= v.particles_in + v.particles_out);
    assert(kept(g.vertices) =~= v.particles_in + v.particles_out);
    assert(kept(g.vertices).map_values(import()) =~= incoming + outgoing);
}

} // verus!
