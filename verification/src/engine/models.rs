//! The model files that make up an engine generation, by their role.

use vstd::prelude::*;

use crate::text::same_text;

verus! {

/// A model's purpose inside one immutable engine generation.
#[derive(Debug, Clone, Copy, PartialEq, Eq, Structural)]
pub enum ModelRole {
    Detector,
    Landmark,
    Recognizer,
    Swapper,
    Emap,
    Restorer,
    Restorer2,
    RestorerLandmark,
    Occluder,
    Xseg,
    FaceParser,
    Enhancer,
    Dfm,
}

/// The number of roles.
pub const ROLE_COUNT: usize = 13;

/// The roles in their order.
pub open spec fn role_at(i: int) -> ModelRole {
    if i == 0 {
        ModelRole::Detector
    } else if i == 1 {
        ModelRole::Landmark
    } else if i == 2 {
        ModelRole::Recognizer
    } else if i == 3 {
        ModelRole::Swapper
    } else if i == 4 {
        ModelRole::Emap
    } else if i == 5 {
        ModelRole::Restorer
    } else if i == 6 {
        ModelRole::Restorer2
    } else if i == 7 {
        ModelRole::RestorerLandmark
    } else if i == 8 {
        ModelRole::Occluder
    } else if i == 9 {
        ModelRole::Xseg
    } else if i == 10 {
        ModelRole::FaceParser
    } else if i == 11 {
        ModelRole::Enhancer
    } else {
        ModelRole::Dfm
    }
}

impl ModelRole {
    /// The name of a role.
    pub open spec fn name(self) -> Seq<char> {
        match self {
            ModelRole::Detector => "detector"@,
            ModelRole::Landmark => "landmark"@,
            ModelRole::Recognizer => "recognizer"@,
            ModelRole::Swapper => "swapper"@,
            ModelRole::Emap => "emap"@,
            ModelRole::Restorer => "restorer"@,
            ModelRole::Restorer2 => "restorer-2"@,
            ModelRole::RestorerLandmark => "restorer-landmark"@,
            ModelRole::Occluder => "occluder"@,
            ModelRole::Xseg => "xseg"@,
            ModelRole::FaceParser => "face-parser"@,
            ModelRole::Enhancer => "enhancer"@,
            ModelRole::Dfm => "dfm"@,
        }
    }

    /// The place of a role in the order of roles.
    pub open spec fn place(self) -> int {
        match self {
            ModelRole::Detector => 0,
            ModelRole::Landmark => 1,
            ModelRole::Recognizer => 2,
            ModelRole::Swapper => 3,
            ModelRole::Emap => 4,
            ModelRole::Restorer => 5,
            ModelRole::Restorer2 => 6,
            ModelRole::RestorerLandmark => 7,
            ModelRole::Occluder => 8,
            ModelRole::Xseg => 9,
            ModelRole::FaceParser => 10,
            ModelRole::Enhancer => 11,
            ModelRole::Dfm => 12,
        }
    }

    /// The name of the role.
    pub fn as_str(self) -> (r: &'static str)
        ensures
            r@ == self.name(),
    {
        match self {
            ModelRole::Detector => "detector",
            ModelRole::Landmark => "landmark",
            ModelRole::Recognizer => "recognizer",
            ModelRole::Swapper => "swapper",
            ModelRole::Emap => "emap",
            ModelRole::Restorer => "restorer",
            ModelRole::Restorer2 => "restorer-2",
            ModelRole::RestorerLandmark => "restorer-landmark",
            ModelRole::Occluder => "occluder",
            ModelRole::Xseg => "xseg",
            ModelRole::FaceParser => "face-parser",
            ModelRole::Enhancer => "enhancer",
            ModelRole::Dfm => "dfm",
        }
    }

    /// The `i`-th role.
    pub fn at(i: usize) -> (r: ModelRole)
        requires
            i < ROLE_COUNT,
        ensures
            r == role_at(i as int),
    {
        if i == 0 {
            ModelRole::Detector
        } else if i == 1 {
            ModelRole::Landmark
        } else if i == 2 {
            ModelRole::Recognizer
        } else if i == 3 {
            ModelRole::Swapper
        } else if i == 4 {
            ModelRole::Emap
        } else if i == 5 {
            ModelRole::Restorer
        } else if i == 6 {
            ModelRole::Restorer2
        } else if i == 7 {
            ModelRole::RestorerLandmark
        } else if i == 8 {
            ModelRole::Occluder
        } else if i == 9 {
            ModelRole::Xseg
        } else if i == 10 {
            ModelRole::FaceParser
        } else if i == 11 {
            ModelRole::Enhancer
        } else {
            ModelRole::Dfm
        }
    }
}

/// Every role has its place, and no other role stands there.
pub proof fn every_role_has_its_place(role: ModelRole)
    ensures
        0 <= role.place() < ROLE_COUNT,
        role_at(role.place()) == role,
{
}

/// One content-addressed file consumed by an engine generation.
#[derive(Debug, PartialEq, Eq)]
pub struct ModelArtifact {
    pub logical_name: String,
    pub filename: String,
    pub blake3: String,
}

impl Clone for ModelArtifact {
    fn clone(&self) -> (r: Self)
        ensures
            r == *self,
    {
        ModelArtifact {
            logical_name: self.logical_name.clone(),
            filename: self.filename.clone(),
            blake3: self.blake3.clone(),
        }
    }
}

/// Two artifacts with the same names and contents.
pub open spec fn same_artifact(a: ModelArtifact, b: ModelArtifact) -> bool {
    a.logical_name@ == b.logical_name@ && a.filename@ == b.filename@ && a.blake3@ == b.blake3@
}

impl ModelArtifact {
    /// Whether both artifacts have the same names and contents.
    pub fn matches(&self, other: &ModelArtifact) -> (r: bool)
        ensures
            r == same_artifact(*self, *other),
    {
        same_text(self.logical_name.as_str(), other.logical_name.as_str()) && same_text(
            self.filename.as_str(),
            other.filename.as_str(),
        ) && same_text(self.blake3.as_str(), other.blake3.as_str())
    }
}

/// The models of the face stages.
#[derive(Debug, PartialEq, Eq)]
pub struct FaceModels {
    pub detector: Option<ModelArtifact>,
    pub landmark: Option<ModelArtifact>,
    pub recognizer: Option<ModelArtifact>,
    pub swapper: Option<ModelArtifact>,
    pub emap: Option<ModelArtifact>,
    pub dfm: Option<ModelArtifact>,
}

/// The models of the stages after the swap.
#[derive(Debug, PartialEq, Eq)]
pub struct FinishModels {
    pub restorer: Option<ModelArtifact>,
    pub restorer2: Option<ModelArtifact>,
    pub restorer_landmark: Option<ModelArtifact>,
    pub occluder: Option<ModelArtifact>,
    pub xseg: Option<ModelArtifact>,
    pub face_parser: Option<ModelArtifact>,
    pub enhancer: Option<ModelArtifact>,
}

/// At most one artifact for each role.
#[derive(Debug, PartialEq, Eq)]
pub struct ModelSet {
    pub face: FaceModels,
    pub finish: FinishModels,
}

impl ModelSet {
    /// The artifact that plays `role`.
    pub open spec fn artifact(self, role: ModelRole) -> Option<ModelArtifact> {
        match role {
            ModelRole::Detector => self.face.detector,
            ModelRole::Landmark => self.face.landmark,
            ModelRole::Recognizer => self.face.recognizer,
            ModelRole::Swapper => self.face.swapper,
            ModelRole::Emap => self.face.emap,
            ModelRole::Restorer => self.finish.restorer,
            ModelRole::Restorer2 => self.finish.restorer2,
            ModelRole::RestorerLandmark => self.finish.restorer_landmark,
            ModelRole::Occluder => self.finish.occluder,
            ModelRole::Xseg => self.finish.xseg,
            ModelRole::FaceParser => self.finish.face_parser,
            ModelRole::Enhancer => self.finish.enhancer,
            ModelRole::Dfm => self.face.dfm,
        }
    }

    /// No role is played.
    pub open spec fn vacant(self) -> bool {
        forall|role: ModelRole| #[trigger] self.artifact(role) is None
    }

    /// The set without artifacts.
    pub fn new() -> (r: Self)
        ensures
            r.vacant(),
    {
        ModelSet {
            face: FaceModels {
                detector: None,
                landmark: None,
                recognizer: None,
                swapper: None,
                emap: None,
                dfm: None,
            },
            finish: FinishModels {
                restorer: None,
                restorer2: None,
                restorer_landmark: None,
                occluder: None,
                xseg: None,
                face_parser: None,
                enhancer: None,
            },
        }
    }

    /// The artifact that plays `role`.
    pub fn get(&self, role: ModelRole) -> (r: Option<&ModelArtifact>)
        ensures
            match r {
                Some(a) => self.artifact(role) == Some(*a),
                None => self.artifact(role) is None,
            },
    {
        let slot: &Option<ModelArtifact> = match role {
            ModelRole::Detector => &self.face.detector,
            ModelRole::Landmark => &self.face.landmark,
            ModelRole::Recognizer => &self.face.recognizer,
            ModelRole::Swapper => &self.face.swapper,
            ModelRole::Emap => &self.face.emap,
            ModelRole::Restorer => &self.finish.restorer,
            ModelRole::Restorer2 => &self.finish.restorer2,
            ModelRole::RestorerLandmark => &self.finish.restorer_landmark,
            ModelRole::Occluder => &self.finish.occluder,
            ModelRole::Xseg => &self.finish.xseg,
            ModelRole::FaceParser => &self.finish.face_parser,
            ModelRole::Enhancer => &self.finish.enhancer,
            ModelRole::Dfm => &self.face.dfm,
        };
        match slot {
            Some(artifact) => Some(artifact),
            None => None,
        }
    }

    /// Sets who plays `role`; every other role keeps its artifact.
    pub fn set(&mut self, role: ModelRole, artifact: Option<ModelArtifact>)
        ensures
            forall|other: ModelRole|
                #[trigger] final(self).artifact(other) == if other == role {
                    artifact
                } else {
                    old(self).artifact(other)
                },
    {
        match role {
            ModelRole::Detector => self.face.detector = artifact,
            ModelRole::Landmark => self.face.landmark = artifact,
            ModelRole::Recognizer => self.face.recognizer = artifact,
            ModelRole::Swapper => self.face.swapper = artifact,
            ModelRole::Emap => self.face.emap = artifact,
            ModelRole::Restorer => self.finish.restorer = artifact,
            ModelRole::Restorer2 => self.finish.restorer2 = artifact,
            ModelRole::RestorerLandmark => self.finish.restorer_landmark = artifact,
            ModelRole::Occluder => self.finish.occluder = artifact,
            ModelRole::Xseg => self.finish.xseg = artifact,
            ModelRole::FaceParser => self.finish.face_parser = artifact,
            ModelRole::Enhancer => self.finish.enhancer = artifact,
            ModelRole::Dfm => self.face.dfm = artifact,
        }
    }

    /// What an assignment adds to the artifacts of its generation: no detector, no enhancer, and
    /// nothing that the generation has already.
    pub fn own(self, base: &ModelSet) -> (r: ModelSet)
        ensures
            own_models(r, self, *base),
    {
        let mut r: ModelSet = self;
        let mut i: usize = 0;
        while i < ROLE_COUNT
            invariant
                i <= ROLE_COUNT,
                forall|j: int|
                    0 <= j < i ==> r.artifact(#[trigger] role_at(j)) == own_artifact(
                        self,
                        *base,
                        role_at(j),
                    ),
                forall|j: int|
                    i <= j < ROLE_COUNT ==> r.artifact(#[trigger] role_at(j)) == self.artifact(
                        role_at(j),
                    ),
            decreases ROLE_COUNT - i,
        {
            let role = ModelRole::at(i);
            let shared = match (r.get(role), base.get(role)) {
                (Some(artifact), Some(other)) => artifact.matches(other),
                _ => false,
            };
            let ghost before = r;
            proof {
                assert(before.artifact(role_at(i as int)) == self.artifact(role));
            }
            if shared || role == ModelRole::Detector || role == ModelRole::Enhancer {
                r.set(role, None);
            }
            proof {
                assert forall|j: int| 0 <= j < ROLE_COUNT && j != i implies r.artifact(
                    #[trigger] role_at(j),
                ) == before.artifact(role_at(j)) by {
                    assert(role_at(j) != role_at(i as int));
                }
            }
            i = i + 1;
        }
        proof {
            assert forall|role: ModelRole| #[trigger] r.artifact(role) == own_artifact(
                self,
                *base,
                role,
            ) by {
                every_role_has_its_place(role);
                assert(r.artifact(role_at(role.place())) == own_artifact(
                    self,
                    *base,
                    role_at(role.place()),
                ));
            }
        }
        r
    }

    /// Whether no role is played.
    pub fn is_empty(&self) -> (r: bool)
        ensures
            r == self.vacant(),
    {
        let mut i: usize = 0;
        while i < ROLE_COUNT
            invariant
                i <= ROLE_COUNT,
                forall|j: int| 0 <= j < i ==> self.artifact(#[trigger] role_at(j)) is None,
            decreases ROLE_COUNT - i,
        {
            if self.get(ModelRole::at(i)).is_some() {
                assert(self.artifact(role_at(i as int)) is Some);
                return false;
            }
            i = i + 1;
        }
        proof {
            assert forall|role: ModelRole| #[trigger] self.artifact(role) is None by {
                every_role_has_its_place(role);
                assert(self.artifact(role_at(role.place())) is None);
            }
        }
        true
    }

    /// The artifacts of `self` where `over` has none, and those of `over` elsewhere.
    pub fn overlaid(&self, over: &ModelSet) -> (r: ModelSet)
        ensures
            r == overlay(*self, *over),
    {
        ModelSet {
            face: FaceModels {
                detector: chosen(&self.face.detector, &over.face.detector),
                landmark: chosen(&self.face.landmark, &over.face.landmark),
                recognizer: chosen(&self.face.recognizer, &over.face.recognizer),
                swapper: chosen(&self.face.swapper, &over.face.swapper),
                emap: chosen(&self.face.emap, &over.face.emap),
                dfm: chosen(&self.face.dfm, &over.face.dfm),
            },
            finish: FinishModels {
                restorer: chosen(&self.finish.restorer, &over.finish.restorer),
                restorer2: chosen(&self.finish.restorer2, &over.finish.restorer2),
                restorer_landmark: chosen(&self.finish.restorer_landmark, &over.finish.restorer_landmark),
                occluder: chosen(&self.finish.occluder, &over.finish.occluder),
                xseg: chosen(&self.finish.xseg, &over.finish.xseg),
                face_parser: chosen(&self.finish.face_parser, &over.finish.face_parser),
                enhancer: chosen(&self.finish.enhancer, &over.finish.enhancer),
            },
        }
    }
}

/// Who plays `role` for an assignment and not for its generation. Detection and enhancement are
/// the generation's alone.
pub open spec fn own_artifact(local: ModelSet, base: ModelSet, role: ModelRole) -> Option<
    ModelArtifact,
> {
    if role == ModelRole::Detector || role == ModelRole::Enhancer {
        None
    } else {
        match (local.artifact(role), base.artifact(role)) {
            (Some(a), Some(b)) => if same_artifact(a, b) {
                None
            } else {
                Some(a)
            },
            (own, _) => own,
        }
    }
}

/// `models` is what an assignment adds to the artifacts of its generation.
pub open spec fn own_models(models: ModelSet, local: ModelSet, base: ModelSet) -> bool {
    forall|role: ModelRole| #[trigger]
        models.artifact(role) == own_artifact(local, base, role)
}

/// `over` where it is something, `base` otherwise.
pub open spec fn preferred(
    base: Option<ModelArtifact>,
    over: Option<ModelArtifact>,
) -> Option<ModelArtifact> {
    if over is Some {
        over
    } else {
        base
    }
}

fn chosen(base: &Option<ModelArtifact>, over: &Option<ModelArtifact>) -> (r: Option<ModelArtifact>)
    ensures
        r == preferred(*base, *over),
{
    match over {
        Some(artifact) => Some(artifact.clone()),
        None => match base {
            Some(artifact) => Some(artifact.clone()),
            None => None,
        },
    }
}

/// The artifacts of `base` where `over` has none, and those of `over` elsewhere.
pub open spec fn overlay(base: ModelSet, over: ModelSet) -> ModelSet {
    ModelSet {
        face: FaceModels {
            detector: preferred(base.face.detector, over.face.detector),
            landmark: preferred(base.face.landmark, over.face.landmark),
            recognizer: preferred(base.face.recognizer, over.face.recognizer),
            swapper: preferred(base.face.swapper, over.face.swapper),
            emap: preferred(base.face.emap, over.face.emap),
            dfm: preferred(base.face.dfm, over.face.dfm),
        },
        finish: FinishModels {
            restorer: preferred(base.finish.restorer, over.finish.restorer),
            restorer2: preferred(base.finish.restorer2, over.finish.restorer2),
            restorer_landmark: preferred(base.finish.restorer_landmark, over.finish.restorer_landmark),
            occluder: preferred(base.finish.occluder, over.finish.occluder),
            xseg: preferred(base.finish.xseg, over.finish.xseg),
            face_parser: preferred(base.finish.face_parser, over.finish.face_parser),
            enhancer: preferred(base.finish.enhancer, over.finish.enhancer),
        },
    }
}

/// In an overlay every role is played by the artifact of `over` where it has one.
pub proof fn overlay_prefers_over(base: ModelSet, over: ModelSet, role: ModelRole)
    ensures
        overlay(base, over).artifact(role) == preferred(base.artifact(role), over.artifact(role)),
{
}

/// Every role goes by a name of its own.
pub proof fn roles_are_told_by_name(role: ModelRole)
    ensures
        role.name() == "detector"@ <==> role is Detector,
        role.name() == "landmark"@ <==> role is Landmark,
        role.name() == "recognizer"@ <==> role is Recognizer,
        role.name() == "swapper"@ <==> role is Swapper,
        role.name() == "emap"@ <==> role is Emap,
        role.name() == "restorer"@ <==> role is Restorer,
        role.name() == "restorer-2"@ <==> role is Restorer2,
        role.name() == "restorer-landmark"@ <==> role is RestorerLandmark,
        role.name() == "occluder"@ <==> role is Occluder,
        role.name() == "xseg"@ <==> role is Xseg,
        role.name() == "face-parser"@ <==> role is FaceParser,
        role.name() == "enhancer"@ <==> role is Enhancer,
        role.name() == "dfm"@ <==> role is Dfm,
{
    reveal_strlit("detector");
    reveal_strlit("landmark");
    reveal_strlit("recognizer");
    reveal_strlit("swapper");
    reveal_strlit("emap");
    reveal_strlit("restorer");
    reveal_strlit("restorer-2");
    reveal_strlit("restorer-landmark");
    reveal_strlit("occluder");
    reveal_strlit("xseg");
    reveal_strlit("face-parser");
    reveal_strlit("enhancer");
    reveal_strlit("dfm");
    assert("detector"@.len() == 8 && "detector"@[0] == 'd' && "detector"@[2] == 't');
    assert("landmark"@.len() == 8 && "landmark"@[0] == 'l' && "landmark"@[2] == 'n');
    assert("recognizer"@.len() == 10 && "recognizer"@[0] == 'r' && "recognizer"@[2] == 'c');
    assert("swapper"@.len() == 7 && "swapper"@[0] == 's' && "swapper"@[2] == 'a');
    assert("emap"@.len() == 4 && "emap"@[0] == 'e' && "emap"@[2] == 'a');
    assert("restorer"@.len() == 8 && "restorer"@[0] == 'r' && "restorer"@[2] == 's');
    assert("restorer-2"@.len() == 10 && "restorer-2"@[0] == 'r' && "restorer-2"@[2] == 's');
    assert("restorer-landmark"@.len() == 17 && "restorer-landmark"@[0] == 'r' && "restorer-landmark"@[2] == 's');
    assert("occluder"@.len() == 8 && "occluder"@[0] == 'o' && "occluder"@[2] == 'c');
    assert("xseg"@.len() == 4 && "xseg"@[0] == 'x' && "xseg"@[2] == 'e');
    assert("face-parser"@.len() == 11 && "face-parser"@[0] == 'f' && "face-parser"@[2] == 'c');
    assert("enhancer"@.len() == 8 && "enhancer"@[0] == 'e' && "enhancer"@[2] == 'h');
    assert("dfm"@.len() == 3 && "dfm"@[0] == 'd' && "dfm"@[2] == 'm');
}

} // verus!
