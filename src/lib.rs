//! Sphere-tracing renderer core over signed distance fields, computed in
//! saturating 16.16 fixed-point arithmetic.
pub mod fixed;
pub mod math;
pub mod vec3;
pub mod mat4;
pub mod shapes;
pub mod scene;
pub mod raymarch;

pub use mat4::Mat4;
pub use vec3::Vec3;
pub use scene::Scene;
pub use shapes::{CSGOperator, DistanceField, SceneObject};
pub use math::{lerp, difference, min_smooth, max_smooth, difference_smooth};
