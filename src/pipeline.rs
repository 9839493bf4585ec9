//! The per-face steps of the two operations: planning every detected face of
//! a cutout, picking and correcting the face of a transplant, and gathering
//! the results of the faces in detector order.
use vstd::prelude::*;
use crate::error::FaceError;
use crate::geometry::{
    Rect,
    HintProfile,
    canvas_of,
    hint_of,
    is_usable_face,
    lies_within,
    plan_canvas,
    plan_hint,
};
use crate::image::{Image, Mask, crop};
use crate::segment::{seed_label, seed_labels};
use crate::color::{
    is_color_image,
    estimate_strength,
    strength_for,
    skin_distance,
    skin_mean,
    shifted,
    apply_shift,
};
use crate::blend::{blend, mix};

verus! {

/// The regions planned around one detected face: the canvas in image
/// coordinates, and the hint in canvas coordinates.
#[derive(Clone, Copy, Debug, PartialEq, Eq, Structural)]
pub struct FacePlan {
    pub face: Rect,
    pub canvas: Rect,
    pub hint: Rect,
}

/// The plan of a usable face.
pub open spec fn plan_of(face: Rect, image_width: int, image_height: int, profile: HintProfile) -> FacePlan {
    let canvas = canvas_of(face, image_width, image_height);
    FacePlan { face, canvas, hint: hint_of(canvas, face, profile) }
}

/// Plans the canvas and the hint of one detected face.
pub fn plan_face(face: Rect, image_width: i32, image_height: i32, profile: HintProfile) -> (r: Result<
    FacePlan,
    FaceError,
>)
    ensures
        r is Ok <==> is_usable_face(face, image_width as int, image_height as int),
        r is Err ==> r->Err_0 == FaceError::InvalidDetection,
        r is Ok ==> r->Ok_0 == plan_of(face, image_width as int, image_height as int, profile),
        r is Ok ==> lies_within(r->Ok_0.canvas, image_width as int, image_height as int),
        r is Ok ==> lies_within(
            r->Ok_0.hint,
            r->Ok_0.canvas.width as int,
            r->Ok_0.canvas.height as int,
        ),
{
    let canvas = plan_canvas(face, image_width, image_height)?;
    let hint = plan_hint(canvas, face, profile);
    Ok(FacePlan { face, canvas, hint })
}

/// Plans every detected face of a cutout, in detector order. The whole batch
/// fails when there is no face, or when any face is unusable.
pub fn plan_faces(faces: &Vec<Rect>, image_width: i32, image_height: i32) -> (r: Result<
    Vec<FacePlan>,
    FaceError,
>)
    ensures
        faces@.len() == 0 ==> r == Err::<Vec<FacePlan>, FaceError>(FaceError::NoFaceDetected),
        faces@.len() > 0 && (exists|i: int|
            0 <= i < faces@.len() && !is_usable_face(
                #[trigger] faces@[i],
                image_width as int,
                image_height as int,
            )) ==> r == Err::<Vec<FacePlan>, FaceError>(FaceError::InvalidDetection),
        r is Ok <==> faces@.len() > 0 && forall|i: int|
            0 <= i < faces@.len() ==> is_usable_face(
                #[trigger] faces@[i],
                image_width as int,
                image_height as int,
            ),
        r is Ok ==> r->Ok_0@.len() == faces@.len() && forall|i: int|
            0 <= i < faces@.len() ==> #[trigger] r->Ok_0@[i] == plan_of(
                faces@[i],
                image_width as int,
                image_height as int,
                HintProfile::Cutout,
            ),
{
    if faces.len() == 0 {
        return Err(FaceError::NoFaceDetected);
    }
    let mut plans: Vec<FacePlan> = Vec::with_capacity(faces.len());
    let mut i: usize = 0;
    while i < faces.len()
        invariant
            i <= faces@.len(),
            faces@.len() > 0,
            plans@.len() == i,
            forall|j: int| 0 <= j < i ==> is_usable_face(
                #[trigger] faces@[j],
                image_width as int,
                image_height as int,
            ),
            forall|j: int|
                0 <= j < i ==> #[trigger] plans@[j] == plan_of(
                    faces@[j],
                    image_width as int,
                    image_height as int,
                    HintProfile::Cutout,
                ),
        decreases faces@.len() - i,
    {
        match plan_face(faces[i], image_width, image_height, HintProfile::Cutout) {
            Ok(plan) => plans.push(plan),
            Err(e) => {
                proof {
                    assert(!is_usable_face(faces@[i as int], image_width as int, image_height as int));
                }
                return Err(e);
            },
        }
        i = i + 1;
    }
    Ok(plans)
}

/// Gathers the results of the faces of a batch in order, failing with the
/// first error when any face failed.
pub fn collect_batch<T, E>(results: Vec<Result<T, E>>) -> (r: Result<Vec<T>, E>)
    ensures
        r is Ok <==> forall|i: int| 0 <= i < results@.len() ==> #[trigger] results@[i] is Ok,
        r is Ok ==> r->Ok_0@.len() == results@.len() && forall|i: int|
            0 <= i < results@.len() ==> #[trigger] r->Ok_0@[i] == results@[i]->Ok_0,
        r is Err ==> exists|k: int|
            0 <= k < results@.len() && #[trigger] results@[k] == Err::<T, E>(r->Err_0)
                && forall|i: int| 0 <= i < k ==> #[trigger] results@[i] is Ok,
{
    let ghost all = results@;
    let mut rest = results;
    let mut out: Vec<T> = Vec::new();
    while rest.len() > 0
        invariant
            all == results@,
            out@.len() + rest@.len() == all.len(),
            rest@ == all.subrange(out@.len() as int, all.len() as int),
            forall|i: int| 0 <= i < out@.len() ==> #[trigger] all[i] is Ok,
            forall|i: int| 0 <= i < out@.len() ==> #[trigger] out@[i] == all[i]->Ok_0,
        decreases rest@.len(),
    {
        let ghost k = out@.len() as int;
        let item = rest.remove(0);
        proof {
            assert(item == all[k]);
        }
        match item {
            Ok(v) => out.push(v),
            Err(e) => {
                proof {
                    assert(all[k] == Err::<T, E>(e));
                    assert(!(all[k] is Ok));
                }
                return Err(e);
            },
        }
    }
    Ok(out)
}

/// The first detection of each photograph of a transplant. Either list may
/// not be empty, and each chosen face must lie inside its photograph.
pub fn select_swap_faces(
    source_faces: &Vec<Rect>,
    source_width: usize,
    source_height: usize,
    target_faces: &Vec<Rect>,
    target_width: usize,
    target_height: usize,
) -> (r: Result<(Rect, Rect), FaceError>)
    ensures
        (source_faces@.len() == 0 || target_faces@.len() == 0) ==> r == Err::<
            (Rect, Rect),
            FaceError,
        >(FaceError::NoFaceDetected),
        r is Ok <==> source_faces@.len() > 0 && target_faces@.len() > 0 && lies_within(
            source_faces@[0],
            source_width as int,
            source_height as int,
        ) && lies_within(target_faces@[0], target_width as int, target_height as int),
        r is Ok ==> r->Ok_0 == (source_faces@[0], target_faces@[0]),
        r is Err ==> r->Err_0 == FaceError::NoFaceDetected || r->Err_0
            == FaceError::InvalidDetection,
{
    if source_faces.len() == 0 || target_faces.len() == 0 {
        return Err(FaceError::NoFaceDetected);
    }
    let s = source_faces[0];
    let t = target_faces[0];
    if !rect_lies_within(s, source_width, source_height) || !rect_lies_within(
        t,
        target_width,
        target_height,
    ) {
        return Err(FaceError::InvalidDetection);
    }
    Ok((s, t))
}

/// Whether `r` is non-empty and lies inside a `width` x `height` image.
pub fn rect_lies_within(r: Rect, width: usize, height: usize) -> (b: bool)
    ensures
        b == lies_within(r, width as int, height as int),
{
    r.x >= 0 && r.y >= 0 && r.width >= 1 && r.height >= 1 && r.x as u64 + r.width as u64
        <= width as u64 && r.y as u64 + r.height as u64 <= height as u64
}

/// The canvas of a planned face, cut out of the photograph, and the label
/// map that starts its segmentation.
pub fn prepare_segmentation(img: &Image, plan: &FacePlan) -> (r: Result<(Image, Mask), FaceError>)
    requires
        img.wf(),
    ensures
        r is Ok <==> lies_within(plan.canvas, img.width as int, img.height as int) && lies_within(
            plan.hint,
            plan.canvas.width as int,
            plan.canvas.height as int,
        ),
        r is Err ==> r->Err_0 == FaceError::SegmentationFailed,
        r is Ok ==> {
            let (canvas, labels) = r->Ok_0;
            &&& canvas.wf()
            &&& canvas.width == plan.canvas.width
            &&& canvas.height == plan.canvas.height
            &&& canvas.channels == img.channels
            &&& forall|x: int, y: int, c: int|
                0 <= x < canvas.width && 0 <= y < canvas.height && 0 <= c < img.channels
                    ==> #[trigger] canvas.at(x, y, c) == img.at(
                    plan.canvas.x + x,
                    plan.canvas.y + y,
                    c,
                )
            &&& labels.wf()
            &&& labels.width == canvas.width
            &&& labels.height == canvas.height
            &&& forall|x: int, y: int|
                0 <= x < canvas.width && 0 <= y < canvas.height ==> #[trigger] labels.at(x, y)
                    == seed_label(plan.hint, x, y)
        },
{
    if !rect_lies_within(plan.canvas, img.width, img.height) {
        return Err(FaceError::SegmentationFailed);
    }
    let canvas = crop(img, plan.canvas);
    let n = canvas.data.len();
    proof {
        assert(canvas.width * canvas.height <= canvas.data@.len()) by (nonlinear_arith)
            requires
                canvas.data@.len() == canvas.width * canvas.height * canvas.channels,
                canvas.channels >= 1,
                canvas.width * canvas.height >= 0,
        ;
    }
    let labels = seed_labels(canvas.width, canvas.height, plan.hint)?;
    Ok((canvas, labels))
}

/// The correction strength of a transplant, in thousandths: the one asked
/// for, or else the one estimated from the two face crops.
pub fn choose_strength(source_face: &Image, target_face: &Image, requested: Option<u32>) -> (r: u32)
    requires
        is_color_image(*source_face),
        is_color_image(*target_face),
    ensures
        requested is Some ==> r == requested->Some_0,
        requested is None ==> r == strength_for(skin_distance(*source_face, *target_face)),
{
    match requested {
        Some(s) => s,
        None => estimate_strength(source_face, target_face) as u32,
    }
}

/// Channel `c` of the target pixel at column `x`, row `y` once `face`,
/// colour-corrected toward `target_face` with `strength` thousandths, has been
/// feathered in with its top left corner at (`ox`, `oy`).
pub open spec fn transplanted_at(
    face: Image,
    target_face: Image,
    target: Image,
    feather: Mask,
    ox: int,
    oy: int,
    strength: int,
    x: int,
    y: int,
    c: int,
) -> int {
    let sx = x - ox;
    let sy = y - oy;
    if 0 <= sx < face.width && 0 <= sy < face.height {
        mix(
            shifted(
                face.at(sx, sy, c) as int,
                skin_mean(target_face, c) - skin_mean(face, c),
                strength,
            ),
            target.at(x, y, c) as int,
            feather.at(sx, sy) as int,
        )
    } else {
        target.at(x, y, c) as int
    }
}

/// Moves `face`'s skin colour toward `target_face`'s by `strength`
/// thousandths, then feathers it into `target` with its top left corner at
/// (`ox`, `oy`).
pub fn transplant(
    face: &Image,
    target_face: &Image,
    target: &mut Image,
    feather: &Mask,
    ox: i32,
    oy: i32,
    strength: u32,
)
    requires
        is_color_image(*face),
        is_color_image(*target_face),
        is_color_image(*old(target)),
        feather.wf(),
        feather.width >= face.width,
        feather.height >= face.height,
    ensures
        is_color_image(*final(target)),
        final(target).width == old(target).width,
        final(target).height == old(target).height,
        forall|x: int, y: int, c: int|
            0 <= x < old(target).width && 0 <= y < old(target).height && 0 <= c < 3
                ==> #[trigger] final(target).at(x, y, c) == transplanted_at(
                *face,
                *target_face,
                *old(target),
                *feather,
                ox as int,
                oy as int,
                strength as int,
                x,
                y,
                c,
            ),
{
    let ghost before = *target;
    let corrected = apply_shift(face, target_face, strength);
    blend(&corrected, target, feather, ox, oy);
    proof {
        assert forall|x: int, y: int, c: int|
            0 <= x < before.width && 0 <= y < before.height && 0 <= c < 3 implies #[trigger] target.at(
            x,
            y,
            c,
        ) == transplanted_at(
            *face,
            *target_face,
            before,
            *feather,
            ox as int,
            oy as int,
            strength as int,
            x,
            y,
            c,
        ) by {
            let sx = x - ox;
            let sy = y - oy;
            if 0 <= sx < face.width && 0 <= sy < face.height {
                let w = face.width as int;
                let j = sy * (w * 3) + sx * 3 + c;
                assert(j == (sy * w + sx) * 3 + c) by (nonlinear_arith)
                    requires
                        j == sy * (w * 3) + sx * 3 + c,
                ;
                vstd::arithmetic::div_mod::lemma_fundamental_div_mod_converse(j, 3, sy * w + sx, c);
                crate::image::lemma_pixel_in_row(sx, w, c, 3);
                crate::image::lemma_row_index(sy, face.height as int, w * 3, sx * 3 + c);
                assert(face.height * (w * 3) == w * face.height * 3) by (nonlinear_arith);
                assert(corrected.at(sx, sy, c) as int == shifted(
                    face.at(sx, sy, c) as int,
                    skin_mean(*target_face, c) - skin_mean(*face, c),
                    strength as int,
                ));
            }
        }
    }
}

} // verus!
