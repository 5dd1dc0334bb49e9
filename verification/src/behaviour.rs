use vstd::prelude::*;

verus! {

/// An image path as the script gives it: the empty path means no image.
pub open spec fn image_of(path: Seq<char>) -> Option<Seq<char>> {
    if path.len() == 0 { None } else { Some(path) }
}

pub open spec fn opt_view(o: Option<String>) -> Option<Seq<char>> {
    match o {
        Some(s) => Some(s@),
        None => None,
    }
}

fn trans_string_path(s: String) -> (r: Option<String>)
    ensures
        opt_view(r) == image_of(s@),
{
    if s.as_str().is_empty() { None } else { Some(s) }
}

/// A cross-fade from an old background image to a new one; times in nanoseconds.
pub struct AniImgTrans {
    pub anim_nanos: u64,
    pub old_image: Option<String>,
    pub new_image: Option<String>,
    pub run_nanos: u64,
}

impl AniImgTrans {
    /// No transition and no image.
    pub fn new() -> (r: Self)
        ensures
            r.anim_nanos == 0 && r.run_nanos == 0 && r.old_image is None && r.new_image is None,
    {
        AniImgTrans { anim_nanos: 0, old_image: None, new_image: None, run_nanos: 0 }
    }

    /// Advances the transition by `tick_nanos`, never past its end.
    pub fn update(&mut self, tick_nanos: u64)
        requires
            old(self).run_nanos + tick_nanos <= u64::MAX,
        ensures
            final(self).run_nanos == if old(self).run_nanos + tick_nanos <= old(self).anim_nanos {
                old(self).run_nanos + tick_nanos
            } else {
                old(self).anim_nanos as int
            },
            final(self).anim_nanos == old(self).anim_nanos,
            final(self).old_image == old(self).old_image,
            final(self).new_image == old(self).new_image,
    {
        let t = self.run_nanos + tick_nanos;
        self.run_nanos = if t <= self.anim_nanos { t } else { self.anim_nanos };
    }

    /// Jumps to the end of the transition.
    pub fn force_over(&mut self)
        ensures
            final(self).run_nanos == old(self).anim_nanos,
            final(self).anim_nanos == old(self).anim_nanos,
            final(self).old_image == old(self).old_image,
            final(self).new_image == old(self).new_image,
    {
        self.run_nanos = self.anim_nanos;
    }

    /// Drops the transition: both its length and the time run become zero.
    pub fn reset(&mut self)
        ensures
            final(self).run_nanos == 0,
            final(self).anim_nanos == 0,
            final(self).old_image == old(self).old_image,
            final(self).new_image == old(self).new_image,
    {
        self.run_nanos = 0;
        self.anim_nanos = 0;
    }

    /// Whether the transition is still running.
    pub fn is_animing(&self) -> (r: bool)
        ensures
            r == (self.run_nanos < self.anim_nanos),
    {
        self.run_nanos < self.anim_nanos
    }
}

/// The background of the dialogue screen: its image transition and whether
/// the dark edges at top and bottom are shown.
pub struct BackgroundBehaviour {
    pub is_edge: bool,
    pub img_trans_ani: AniImgTrans,
}

impl BackgroundBehaviour {
    /// No image, no edges.
    pub fn new() -> (r: Self)
        ensures
            !r.is_edge,
            r.img_trans_ani.anim_nanos == 0 && r.img_trans_ani.run_nanos == 0,
            r.img_trans_ani.old_image is None && r.img_trans_ani.new_image is None,
    {
        BackgroundBehaviour { is_edge: false, img_trans_ani: AniImgTrans::new() }
    }

    /// Starts a transition of `duration_nanos` to the image at `new_img_path`
    /// (no image when the path is empty); the current image becomes the old one.
    /// The path is kept as given: callers hand in the script's path already
    /// resolved against the game's root directory.
    pub fn export_trans_to(&mut self, new_img_path: String, duration_nanos: u64)
        ensures
            final(self).is_edge == old(self).is_edge,
            final(self).img_trans_ani.old_image == old(self).img_trans_ani.new_image,
            opt_view(final(self).img_trans_ani.new_image) == image_of(new_img_path@),
            final(self).img_trans_ani.anim_nanos == duration_nanos,
            final(self).img_trans_ani.run_nanos == 0,
    {
        let old_new = self.img_trans_ani.new_image.clone();
        self.img_trans_ani.old_image = old_new;
        self.img_trans_ani.new_image = trans_string_path(new_img_path);
        self.img_trans_ani.anim_nanos = duration_nanos;
        self.img_trans_ani.run_nanos = 0;
    }

    /// Shows the image at `new_img_path` at once (no image when the path is
    /// empty); the current image becomes the old one. The path is kept as
    /// given: callers hand in the script's path already resolved against the
    /// game's root directory.
    pub fn export_set(&mut self, new_img_path: String)
        ensures
            final(self).is_edge == old(self).is_edge,
            final(self).img_trans_ani.old_image == old(self).img_trans_ani.new_image,
            opt_view(final(self).img_trans_ani.new_image) == image_of(new_img_path@),
            final(self).img_trans_ani.anim_nanos == 0,
            final(self).img_trans_ani.run_nanos == 0,
    {
        let old_new = self.img_trans_ani.new_image.clone();
        self.img_trans_ani.old_image = old_new;
        self.img_trans_ani.new_image = trans_string_path(new_img_path);
        self.img_trans_ani.anim_nanos = 0;
        self.img_trans_ani.run_nanos = 0;
    }

    /// Shows the dark edges.
    pub fn export_show_edge(&mut self)
        ensures
            final(self).is_edge,
            final(self).img_trans_ani == old(self).img_trans_ani,
    {
        self.is_edge = true;
    }

    /// Hides the dark edges.
    pub fn export_hide_edge(&mut self)
        ensures
            !final(self).is_edge,
            final(self).img_trans_ani == old(self).img_trans_ani,
    {
        self.is_edge = false;
    }

    /// Whether the image transition is running.
    pub fn is_animating(&self) -> (r: bool)
        ensures
            r == (self.img_trans_ani.run_nanos < self.img_trans_ani.anim_nanos),
    {
        self.img_trans_ani.is_animing()
    }

    /// Takes the background variables of a scene that becomes active: the
    /// edge flag and the image path, shown at once. The path is kept as
    /// given: callers hand in the script's path already resolved against the
    /// game's root directory.
    pub fn on_scene_active(&mut self, is_edge: bool, img_path: String)
        ensures
            final(self).is_edge == is_edge,
            final(self).img_trans_ani.old_image == old(self).img_trans_ani.old_image,
            opt_view(final(self).img_trans_ani.new_image) == image_of(img_path@),
            final(self).img_trans_ani.anim_nanos == 0,
            final(self).img_trans_ani.run_nanos == 0,
    {
        self.is_edge = is_edge;
        self.img_trans_ani.reset();
        self.img_trans_ani.new_image = trans_string_path(img_path);
    }

    /// Advances the image transition.
    pub fn tick_update(&mut self, delta_nanos: u64)
        requires
            old(self).img_trans_ani.run_nanos + delta_nanos <= u64::MAX,
        ensures
            final(self).is_edge == old(self).is_edge,
            final(self).img_trans_ani.run_nanos == if old(self).img_trans_ani.run_nanos + delta_nanos <= old(self).img_trans_ani.anim_nanos {
                old(self).img_trans_ani.run_nanos + delta_nanos
            } else {
                old(self).img_trans_ani.anim_nanos as int
            },
            final(self).img_trans_ani.anim_nanos == old(self).img_trans_ani.anim_nanos,
            final(self).img_trans_ani.old_image == old(self).img_trans_ani.old_image,
            final(self).img_trans_ani.new_image == old(self).img_trans_ani.new_image,
    {
        self.img_trans_ani.update(delta_nanos);
    }

    /// Ends the image transition at once.
    pub fn on_force_over_animation(&mut self)
        ensures
            final(self).is_edge == old(self).is_edge,
            final(self).img_trans_ani.run_nanos == old(self).img_trans_ani.anim_nanos,
            final(self).img_trans_ani.anim_nanos == old(self).img_trans_ani.anim_nanos,
            final(self).img_trans_ani.old_image == old(self).img_trans_ani.old_image,
            final(self).img_trans_ani.new_image == old(self).img_trans_ani.new_image,
    {
        self.img_trans_ani.force_over();
    }

    /// Drops the transition when a dialogue ends.
    pub fn on_end_dialouge(&mut self)
        ensures
            final(self).is_edge == old(self).is_edge,
            final(self).img_trans_ani.run_nanos == 0,
            final(self).img_trans_ani.anim_nanos == 0,
            final(self).img_trans_ani.old_image == old(self).img_trans_ani.old_image,
            final(self).img_trans_ani.new_image == old(self).img_trans_ani.new_image,
    {
        self.img_trans_ani.reset();
    }

    /// Drops the transition when a session ends.
    pub fn on_end_session(&mut self)
        ensures
            final(self).is_edge == old(self).is_edge,
            final(self).img_trans_ani.run_nanos == 0,
            final(self).img_trans_ani.anim_nanos == 0,
            final(self).img_trans_ani.old_image == old(self).img_trans_ani.old_image,
            final(self).img_trans_ani.new_image == old(self).img_trans_ani.new_image,
    {
        self.img_trans_ani.reset();
    }
}

/// Text revealed character by character: from `start_text` towards `target_text`
/// at `speed` characters per second; time run in nanoseconds.
pub struct AniTypeWriter {
    pub start_text: String,
    pub target_text: String,
    pub speed: u32,
    pub run_nanos: u64,
}

impl AniTypeWriter {
    /// Empty texts, not running, at `speed` characters per second.
    pub fn with_speed(speed: u32) -> (r: Self)
        ensures
            r.start_text@ == Seq::<char>::empty(),
            r.target_text@ == Seq::<char>::empty(),
            r.speed == speed,
            r.run_nanos == 0,
    {
        AniTypeWriter { start_text: String::new(), target_text: String::new(), speed, run_nanos: 0 }
    }

    /// Clears both texts and the time run; the speed is kept.
    pub fn reset(&mut self)
        ensures
            final(self).start_text@ == Seq::<char>::empty(),
            final(self).target_text@ == Seq::<char>::empty(),
            final(self).speed == old(self).speed,
            final(self).run_nanos == 0,
    {
        self.run_nanos = 0;
        self.start_text = String::new();
        self.target_text = String::new();
    }
}

/// Characters per second at which the dialogue frame types its text.
pub const FRAME_TYPEWRITER_SPEED: u32 = 30;

/// The dialogue frame: face image, text and speaker, with the typewriter
/// that reveals the text.
pub struct FrameBehaviour {
    pub face_img: String,
    pub text: String,
    pub speaker: String,
    pub typewriter: AniTypeWriter,
}

impl FrameBehaviour {
    /// An empty frame whose typewriter runs at `FRAME_TYPEWRITER_SPEED`.
    pub fn new() -> (r: Self)
        ensures
            r.face_img@ == Seq::<char>::empty(),
            r.text@ == Seq::<char>::empty(),
            r.speaker@ == Seq::<char>::empty(),
            r.typewriter.start_text@ == Seq::<char>::empty(),
            r.typewriter.target_text@ == Seq::<char>::empty(),
            r.typewriter.speed == FRAME_TYPEWRITER_SPEED,
            r.typewriter.run_nanos == 0,
    {
        FrameBehaviour {
            face_img: String::new(),
            text: String::new(),
            speaker: String::new(),
            typewriter: AniTypeWriter::with_speed(FRAME_TYPEWRITER_SPEED),
        }
    }

    /// Narration: shows `text` with no face and no speaker, typed from the start.
    pub fn export_text(&mut self, text: String)
        ensures
            final(self).face_img@ == Seq::<char>::empty(),
            final(self).text@ == text@,
            final(self).speaker@ == Seq::<char>::empty(),
            final(self).typewriter.start_text@ == Seq::<char>::empty(),
            final(self).typewriter.target_text@ == text@,
            final(self).typewriter.speed == old(self).typewriter.speed,
            final(self).typewriter.run_nanos == 0,
    {
        self.face_img = String::new();
        self.text = text.clone();
        self.speaker = String::new();
        self.typewriter.reset();
        self.typewriter.target_text = text;
        self.typewriter.start_text = String::new();
    }

    /// A character's line: `speaker` says `text` with the face `face_img`, typed from the start.
    pub fn export_say(&mut self, speaker: String, face_img: String, text: String)
        ensures
            final(self).face_img@ == face_img@,
            final(self).text@ == text@,
            final(self).speaker@ == speaker@,
            final(self).typewriter.start_text@ == Seq::<char>::empty(),
            final(self).typewriter.target_text@ == text@,
            final(self).typewriter.speed == old(self).typewriter.speed,
            final(self).typewriter.run_nanos == 0,
    {
        self.face_img = face_img;
        self.text = text.clone();
        self.speaker = speaker;
        self.typewriter.reset();
        self.typewriter.target_text = text;
        self.typewriter.start_text = String::new();
    }

    /// Clears the face and text when a dialogue ends (the speaker is kept).
    pub fn on_end_dialouge(&mut self)
        ensures
            final(self).face_img@ == Seq::<char>::empty(),
            final(self).text@ == Seq::<char>::empty(),
            final(self).speaker == old(self).speaker,
            final(self).typewriter.start_text@ == Seq::<char>::empty(),
            final(self).typewriter.target_text@ == Seq::<char>::empty(),
            final(self).typewriter.speed == old(self).typewriter.speed,
            final(self).typewriter.run_nanos == 0,
    {
        self.face_img = String::new();
        self.text = String::new();
        self.typewriter.reset();
    }

    /// Clears the face and text when a session ends (the speaker is kept).
    pub fn on_end_session(&mut self)
        ensures
            final(self).face_img@ == Seq::<char>::empty(),
            final(self).text@ == Seq::<char>::empty(),
            final(self).speaker == old(self).speaker,
            final(self).typewriter.start_text@ == Seq::<char>::empty(),
            final(self).typewriter.target_text@ == Seq::<char>::empty(),
            final(self).typewriter.speed == old(self).typewriter.speed,
            final(self).typewriter.run_nanos == 0,
    {
        self.face_img = String::new();
        self.text = String::new();
        self.typewriter.reset();
    }
}

/// A visual element of the dialogue frame as it is first laid out: its name,
/// its depth (higher is drawn above) and whether it is shown.
#[derive(Debug, Clone, PartialEq, Eq)]
pub struct FrameVe {
    pub name: String,
    pub z_index: i32,
    pub visible: bool,
}

/// The frame's elements as the frame is first laid out, in order: the face
/// above all, the block below the text, the name (hidden until a speaker
/// comes) and the bar of short keys; only the name starts hidden.
pub open spec fn frame_ves_spec() -> Seq<(Seq<char>, i32, bool)> {
    seq![
        ("frame.face"@, 230i32, true),
        ("frame.block"@, 200i32, true),
        ("frame.text"@, 210i32, true),
        ("frame.name"@, 220i32, false),
        ("frame.shortkey"@, 220i32, true),
    ]
}

/// The frame's elements as they are first built; see `frame_ves_spec`.
pub fn frame_ves() -> (r: Vec<FrameVe>)
    ensures
        r@.len() == frame_ves_spec().len(),
        forall|i: int| 0 <= i < r@.len() ==> (#[trigger] r@[i]).name@ == frame_ves_spec()[i].0
            && r@[i].z_index == frame_ves_spec()[i].1 && r@[i].visible == frame_ves_spec()[i].2,
{
    let r = vec![
        FrameVe { name: String::from_str("frame.face"), z_index: 230, visible: true },
        FrameVe { name: String::from_str("frame.block"), z_index: 200, visible: true },
        FrameVe { name: String::from_str("frame.text"), z_index: 210, visible: true },
        FrameVe { name: String::from_str("frame.name"), z_index: 220, visible: false },
        FrameVe { name: String::from_str("frame.shortkey"), z_index: 220, visible: true },
    ];
    assert(r@.len() == 5);
    r
}

/// The visual element at `i` is the first of `names` with its name.
pub open spec fn first_named(names: Seq<String>, i: int) -> bool {
    forall|j: int| 0 <= j < i ==> names[j]@ != names[i]@
}

/// One of the five visual elements of the dialogue frame.
pub open spec fn is_frame_ve(name: Seq<char>) -> bool {
    ||| name == "frame.block"@
    ||| name == "frame.text"@
    ||| name == "frame.name"@
    ||| name == "frame.shortkey"@
    ||| name == "frame.face"@
}

/// Whether a frame element is shown: none is when the dialogue is hidden or
/// the frame is switched off; otherwise the face only with a face image, the
/// name only with a speaker, and the others always.
pub open spec fn frame_ve_shown(name: Seq<char>, show_all: bool, has_face: bool, has_speaker: bool) -> bool {
    if !show_all {
        false
    } else if name == "frame.face"@ {
        has_face
    } else if name == "frame.name"@ {
        has_speaker
    } else {
        true
    }
}

fn is_first_named(names: &Vec<String>, i: usize) -> (r: bool)
    requires
        i < names@.len(),
    ensures
        r == first_named(names@, i as int),
{
    let mut j: usize = 0;
    while j < i
        invariant
            i < names@.len(),
            j <= i,
            forall|k: int| 0 <= k < j ==> names@[k]@ != names@[i as int]@,
        decreases i - j,
    {
        if names[j] == names[i] {
            return false;
        }
        j = j + 1;
    }
    true
}

impl FrameBehaviour {
    /// The visibility of each visual element after the frame is updated:
    /// `names` and `visible` are the elements' names and visibility before.
    /// The first element of each frame name is shown or hidden by
    /// `frame_ve_shown`, where everything is hidden when the dialogue is
    /// hidden (`hide_dialogue`) or the frame is switched off
    /// (`!frame_visible`); every other element keeps its visibility.
    pub fn frame_visibility(&self, names: &Vec<String>, visible: &Vec<bool>, hide_dialogue: bool, frame_visible: bool) -> (r: Vec<bool>)
        requires
            names@.len() == visible@.len(),
        ensures
            r@.len() == names@.len(),
            forall|i: int| 0 <= i < names@.len() ==> r@[i] == (
                if is_frame_ve(names@[i]@) && first_named(names@, i) {
                    frame_ve_shown(names@[i]@, !hide_dialogue && frame_visible, self.face_img@.len() > 0, self.speaker@.len() > 0)
                } else {
                    visible@[i]
                }),
    {
        let show_all = !hide_dialogue && frame_visible;
        let has_face = !self.face_img.as_str().is_empty();
        let has_speaker = !self.speaker.as_str().is_empty();
        let block = String::from_str("frame.block");
        let text = String::from_str("frame.text");
        let name = String::from_str("frame.name");
        let shortkey = String::from_str("frame.shortkey");
        let face = String::from_str("frame.face");
        let mut r: Vec<bool> = Vec::new();
        let mut i: usize = 0;
        while i < names.len()
            invariant
                names@.len() == visible@.len(),
                i <= names@.len(),
                r@.len() == i,
                show_all == (!hide_dialogue && frame_visible),
                has_face == (self.face_img@.len() > 0),
                has_speaker == (self.speaker@.len() > 0),
                block@ == "frame.block"@,
                text@ == "frame.text"@,
                name@ == "frame.name"@,
                shortkey@ == "frame.shortkey"@,
                face@ == "frame.face"@,
                forall|k: int| 0 <= k < i ==> r@[k] == (
                    if is_frame_ve(names@[k]@) && first_named(names@, k) {
                        frame_ve_shown(names@[k]@, show_all, has_face, has_speaker)
                    } else {
                        visible@[k]
                    }),
            decreases names@.len() - i,
        {
            let n = &names[i];
            let framed = *n == block || *n == text || *n == name || *n == shortkey || *n == face;
            let v = if framed && is_first_named(names, i) {
                if !show_all {
                    false
                } else if *n == face {
                    has_face
                } else if *n == name {
                    has_speaker
                } else {
                    true
                }
            } else {
                visible[i]
            };
            r.push(v);
            i = i + 1;
        }
        r
    }
}

impl FrameBehaviour {
    /// What the frame writes into its elements when it is updated: the image
    /// for the face element and the text for the name element (`None` where
    /// the element is left as it is). Nothing is written while the dialogue
    /// is hidden or the frame is switched off; otherwise the face gets the
    /// face image when there is one, and the name gets the speaker.
    pub fn frame_contents(&self, hide_dialogue: bool, frame_visible: bool) -> (r: (Option<String>, Option<String>))
        ensures
            !(!hide_dialogue && frame_visible) ==> r.0 is None && r.1 is None,
            (!hide_dialogue && frame_visible) ==> (r.0 is Some <==> self.face_img@.len() > 0),
            (!hide_dialogue && frame_visible) ==> (r.0 matches Some(f) ==> f@ == self.face_img@),
            (!hide_dialogue && frame_visible) ==> (r.1 matches Some(n) && n@ == self.speaker@),
    {
        if hide_dialogue || !frame_visible {
            return (None, None);
        }
        let face = if self.face_img.as_str().is_empty() { None } else { Some(self.face_img.clone()) };
        (face, Some(self.speaker.clone()))
    }
}

/// Characters per second at which a paragraph types its text.
pub const PARAGRAPH_TYPEWRITER_SPEED: u32 = 40;

/// The paragraph shown over the scene, with the typewriter that reveals it.
pub struct ParagraphBehaviour {
    pub typewriter_ani: AniTypeWriter,
}

impl ParagraphBehaviour {
    /// An empty paragraph; its typewriter has no speed until text is given.
    pub fn new() -> (r: Self)
        ensures
            r.typewriter_ani.start_text@ == Seq::<char>::empty(),
            r.typewriter_ani.target_text@ == Seq::<char>::empty(),
            r.typewriter_ani.speed == 0,
            r.typewriter_ani.run_nanos == 0,
    {
        ParagraphBehaviour { typewriter_ani: AniTypeWriter::with_speed(0) }
    }

    /// Clears the paragraph.
    pub fn export_clear(&mut self)
        ensures
            final(self).typewriter_ani.start_text@ == Seq::<char>::empty(),
            final(self).typewriter_ani.target_text@ == Seq::<char>::empty(),
            final(self).typewriter_ani.speed == old(self).typewriter_ani.speed,
            final(self).typewriter_ani.run_nanos == 0,
    {
        self.typewriter_ani.reset();
    }

    /// Appends `append_string`: what was shown stays, the new text is typed after it.
    pub fn export_print(&mut self, append_string: &String)
        ensures
            final(self).typewriter_ani.start_text@ == old(self).typewriter_ani.target_text@,
            final(self).typewriter_ani.target_text@ == old(self).typewriter_ani.target_text@ + append_string@,
            final(self).typewriter_ani.speed == PARAGRAPH_TYPEWRITER_SPEED,
            final(self).typewriter_ani.run_nanos == 0,
    {
        self.typewriter_ani.start_text = self.typewriter_ani.target_text.clone();
        self.typewriter_ani.target_text = self.typewriter_ani.start_text.clone().concat(append_string.as_str());
        self.typewriter_ani.speed = PARAGRAPH_TYPEWRITER_SPEED;
        self.typewriter_ani.run_nanos = 0;
    }

    /// Starts a new paragraph with `new_string`, typed from the start.
    pub fn export_new(&mut self, new_string: &String)
        ensures
            final(self).typewriter_ani.start_text@ == Seq::<char>::empty(),
            final(self).typewriter_ani.target_text@ == new_string@,
            final(self).typewriter_ani.speed == PARAGRAPH_TYPEWRITER_SPEED,
            final(self).typewriter_ani.run_nanos == 0,
    {
        self.typewriter_ani.start_text = String::new();
        self.typewriter_ani.target_text = new_string.clone();
        self.typewriter_ani.run_nanos = 0;
        self.typewriter_ani.speed = PARAGRAPH_TYPEWRITER_SPEED;
    }

    /// Takes the paragraph content of a scene that becomes active, shown at once.
    pub fn on_scene_active(&mut self, content: &String)
        ensures
            final(self).typewriter_ani.start_text@ == content@,
            final(self).typewriter_ani.target_text@ == content@,
            final(self).typewriter_ani.speed == old(self).typewriter_ani.speed,
            final(self).typewriter_ani.run_nanos == 0,
    {
        self.typewriter_ani.target_text = content.clone();
        self.typewriter_ani.start_text = content.clone();
        self.typewriter_ani.run_nanos = 0;
    }

    /// Clears both texts when a dialogue ends.
    pub fn on_end_dialouge(&mut self)
        ensures
            final(self).typewriter_ani.start_text@ == Seq::<char>::empty(),
            final(self).typewriter_ani.target_text@ == Seq::<char>::empty(),
            final(self).typewriter_ani.speed == old(self).typewriter_ani.speed,
            final(self).typewriter_ani.run_nanos == old(self).typewriter_ani.run_nanos,
    {
        self.typewriter_ani.start_text = String::new();
        self.typewriter_ani.target_text = String::new();
    }

    /// When a session ends, what was typed counts as shown.
    pub fn on_end_session(&mut self)
        ensures
            final(self).typewriter_ani.start_text@ == old(self).typewriter_ani.target_text@,
            final(self).typewriter_ani.target_text@ == old(self).typewriter_ani.target_text@,
            final(self).typewriter_ani.speed == old(self).typewriter_ani.speed,
            final(self).typewriter_ani.run_nanos == old(self).typewriter_ani.run_nanos,
    {
        self.typewriter_ani.start_text = self.typewriter_ani.target_text.clone();
    }
}

} // verus!
