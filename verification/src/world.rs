//! The world registry: the single owner of all primitives and cameras.
//!
//! Objects are registered once and dispatched by variant: cameras go to the
//! camera collection, everything else to the independents. Visibility and
//! frame queries delegate to a camera against the full independent set. The
//! registry is an explicit value threaded through the render loop; there is
//! no ambient global state.

use crate::camera::{camera_synced, camera_wf, coordinate_object, vis_filter, Camera, CameraStatus, Pixel};
use crate::geometry::{Point, Point_Construct};
use crate::linalg::vec4_wf;
use crate::rational::Rat;
use vstd::prelude::*;

verus! {

/// The world: independent objects and cameras, owned together.
pub struct WorldSpace {
    pub all_independents: Vec<coordinate_object>,
    pub cameras: Vec<Camera>,
}

/// Every stored object and camera is well-formed.
pub open spec fn world_wf(w: WorldSpace) -> bool {
    &&& forall|i: int|
        0 <= i < w.all_independents@.len() ==> (#[trigger] w.all_independents@[i]).points_wf()
    &&& forall|i: int| 0 <= i < w.cameras@.len() ==> camera_wf(#[trigger] w.cameras@[i])
}

impl WorldSpace {
    /// An empty world.
    pub fn new() -> (r: WorldSpace)
        ensures
            r.all_independents@.len() == 0,
            r.cameras@.len() == 0,
            world_wf(r),
    {
        WorldSpace { all_independents: Vec::new(), cameras: Vec::new() }
    }

    /// Store an object: a camera joins the camera collection, anything else
    /// the independents. No deduplication, no capacity limit.
    pub fn register_object(&mut self, object: coordinate_object)
        requires
            object.points_wf(),
            object matches coordinate_object::Camera_object(c) ==> camera_wf(c),
            world_wf(*old(self)),
        ensures
            world_wf(*final(self)),
            object matches coordinate_object::Camera_object(c) ==> {
                &&& final(self).cameras@ == old(self).cameras@.push(c)
                &&& final(self).all_independents@ == old(self).all_independents@
            },
            !(object matches coordinate_object::Camera_object(c)) ==> {
                &&& final(self).all_independents@ == old(self).all_independents@.push(object)
                &&& final(self).cameras@ == old(self).cameras@
            },
    {
        match object {
            coordinate_object::Camera_object(camera) => {
                self.cameras.push(camera);
            },
            _ => {
                self.all_independents.push(object);
            },
        }
    }

    /// Populate a fresh scene: one camera at the origin and two marker
    /// points, then refresh every camera.
    pub fn setup(&mut self)
        requires
            world_wf(*old(self)),
        ensures
            world_wf(*final(self)),
            final(self).cameras@.len() == old(self).cameras@.len() + 1,
            final(self).all_independents@.len() == old(self).all_independents@.len() + 2,
    {
        let mut camera = Camera::new();
        let z = Rat::zero();
        let o = Rat::one();
        let origin = Point::new(z, z, z, o);
        let _ = camera.update_extrinsics_centre(origin);
        self.register_object(coordinate_object::Camera_object(camera));
        self.register_object(
            coordinate_object::Point_object(
                Point::new(Rat::new(-100, 1), Rat::new(40, 1), Rat::new(200, 1), o),
            ),
        );
        self.register_object(
            coordinate_object::Point_object(
                Point::new(z, Rat::new(-7071072, 10000000), Rat::new(707107, 1000000), o),
            ),
        );
        self.update_cameras();
    }

    /// Shared references to every camera, in order.
    pub fn reference_to_cameras(&self) -> (r: Vec<&Camera>)
        ensures
            r@.len() == self.cameras@.len(),
            forall|i: int| 0 <= i < r@.len() ==> *(#[trigger] r@[i]) == self.cameras@[i],
    {
        let mut v: Vec<&Camera> = Vec::new();
        let mut i: usize = 0;
        while i < self.cameras.len()
            invariant
                i <= self.cameras@.len(),
                v@.len() == i,
                forall|k: int| 0 <= k < i ==> *(#[trigger] v@[k]) == self.cameras@[k],
            decreases self.cameras@.len() - i,
        {
            v.push(&self.cameras[i]);
            i = i + 1;
        }
        v
    }

    /// Refresh the derived matrices of every camera. A camera whose refresh
    /// arithmetic leaves the representable range is left as it was.
    pub fn update_cameras(&mut self)
        requires
            world_wf(*old(self)),
        ensures
            world_wf(*final(self)),
            final(self).all_independents@ == old(self).all_independents@,
            final(self).cameras@.len() == old(self).cameras@.len(),
            forall|i: int|
                0 <= i < final(self).cameras@.len() ==> (camera_synced(
                    #[trigger] final(self).cameras@[i],
                ) || final(self).cameras@[i] == old(self).cameras@[i]),
            forall|i: int|
                0 <= i < final(self).cameras@.len() && crate::extrinsics::small_mat3(
                    old(self).cameras@[i].orientation@,
                ) && crate::extrinsics::small_vec3(
                    crate::camera::centre_xyz(#[trigger] old(self).cameras@[i]),
                ) ==> camera_synced(final(self).cameras@[i]),
    {
        let mut i: usize = 0;
        while i < self.cameras.len()
            invariant
                i <= self.cameras@.len(),
                self.cameras@.len() == old(self).cameras@.len(),
                self.all_independents@ == old(self).all_independents@,
                world_wf(*old(self)),
                forall|k: int| 0 <= k < self.cameras@.len() ==> camera_wf(#[trigger] self.cameras@[k]),
                forall|k: int|
                    0 <= k < self.all_independents@.len() ==> (
                    #[trigger] self.all_independents@[k]).points_wf(),
                forall|k: int|
                    0 <= k < i ==> (camera_synced(#[trigger] self.cameras@[k]) || self.cameras@[k]
                        == old(self).cameras@[k]),
                forall|k: int|
                    0 <= k < i && crate::extrinsics::small_mat3(
                        old(self).cameras@[k].orientation@,
                    ) && crate::extrinsics::small_vec3(
                        crate::camera::centre_xyz(#[trigger] old(self).cameras@[k]),
                    ) ==> camera_synced(self.cameras@[k]),
                forall|k: int|
                    i <= k < self.cameras@.len() ==> #[trigger] self.cameras@[k] == old(
                        self,
                    ).cameras@[k],
            decreases self.cameras@.len() - i,
        {
            let mut c = self.cameras[i];
            let st = c.update_camera();
            self.cameras.set(i, c);
            i = i + 1;
        }
    }

    /// The independents visible to the given camera.
    pub fn get_visible_objects<'a>(&'a self, camera: &Camera) -> (r: Option<Vec<
        &'a coordinate_object,
    >>)
        requires
            world_wf(*self),
            camera_wf(*camera),
        ensures
            r matches Some(v) ==> v@.map_values(|o: &coordinate_object| *o) == vis_filter(
                *camera,
                self.all_independents@,
            ),
    {
        camera.return_visible_objects(&self.all_independents)
    }

    /// Render one frame: the pixel buffer of the camera against the full
    /// independent set. With no independents the buffer is entirely
    /// background.
    pub fn get_screen_values(&self, camera: &Camera) -> (r: Option<Vec<Pixel>>)
        requires
            world_wf(*self),
            camera_wf(*camera),
        ensures
            r matches Some(buf) ==> {
                &&& buf@.len() == camera.screen_x as int * camera.screen_y as int
                &&& forall|k: int|
                    0 <= k < buf@.len() ==> (#[trigger] buf@[k] == crate::camera::background()
                        || buf@[k] == crate::camera::accent())
                &&& !crate::camera::has_point_object(
                    vis_filter(*camera, self.all_independents@),
                ) ==> forall|k: int|
                    0 <= k < buf@.len() ==> #[trigger] buf@[k] == crate::camera::background()
                &&& self.all_independents@.len() == 0 ==> forall|k: int|
                    0 <= k < buf@.len() ==> #[trigger] buf@[k] == crate::camera::background()
            },
            self.all_independents@.len() == 0 ==> r.is_some(),
            crate::camera::vis_fits(*camera, self.all_independents@)
                && !crate::camera::has_point_object(
                vis_filter(*camera, self.all_independents@),
            ) ==> r.is_some(),
    {
        camera.get_screen_values(&self.all_independents)
    }

    /// Resize the first camera's screen. The world must hold at least one
    /// camera.
    pub fn update_size(&mut self, width: i32, height: i32) -> (st: CameraStatus)
        requires
            world_wf(*old(self)),
            old(self).cameras@.len() > 0,
            1 <= width <= 16384,
            1 <= height <= 16384,
        ensures
            world_wf(*final(self)),
            final(self).all_independents@ == old(self).all_independents@,
            final(self).cameras@.len() == old(self).cameras@.len(),
            st == CameraStatus::OutOfRange ==> final(self).cameras@ == old(self).cameras@,
            st != CameraStatus::OutOfRange ==> {
                &&& final(self).cameras@[0].screen_x == width
                &&& final(self).cameras@[0].screen_y == height
                &&& camera_synced(final(self).cameras@[0])
                &&& forall|i: int|
                    1 <= i < final(self).cameras@.len() ==> final(self).cameras@[i] == old(
                        self,
                    ).cameras@[i]
            },
            crate::extrinsics::small_mat3(old(self).cameras@[0].orientation@)
                && crate::extrinsics::small_vec3(crate::camera::centre_xyz(old(self).cameras@[0]))
                ==> st != CameraStatus::OutOfRange,
    {
        let mut c = self.cameras[0];
        let st = c.update_screen_size(width, height);
        self.cameras.set(0, c);
        proof {
            if st == CameraStatus::OutOfRange {
                assert(self.cameras@ =~= old(self).cameras@);
            }
        }
        st
    }
}

} // verus!
