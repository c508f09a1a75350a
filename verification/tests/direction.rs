use cube_chess::direction::CartesianDirection::{NegX, NegY, NegZ, X, Y, Z};
use cube_chess::direction::{
    first_nonzero_component, nonzero_components, CartesianDirection, RadialDirection, Vec3i,
};

const ALL: [CartesianDirection; 6] = [
    CartesianDirection::X,
    CartesianDirection::NegX,
    CartesianDirection::Y,
    CartesianDirection::NegY,
    CartesianDirection::Z,
    CartesianDirection::NegZ,
];

#[test]
fn axis_numbers_and_signs() {
    assert_eq!(CartesianDirection::X.axis_num(), 0);
    assert_eq!(CartesianDirection::NegY.axis_num(), 1);
    assert_eq!(CartesianDirection::NegZ.axis_num(), 2);
    assert!(CartesianDirection::NegY.is_negative());
    assert!(!CartesianDirection::Z.is_negative());
    assert_eq!(CartesianDirection::NegZ.abs(), CartesianDirection::Z);
    assert_eq!(CartesianDirection::from_axis_num(1, false), CartesianDirection::NegY);
    assert_eq!(CartesianDirection::from_axis_num(2, true), CartesianDirection::Z);
}

#[test]
fn directions_order() {
    assert_eq!(CartesianDirection::directions(), ALL);
    assert_eq!(
        RadialDirection::directions(),
        [
            RadialDirection::ClockwiseX,
            RadialDirection::CounterX,
            RadialDirection::ClockwiseY,
            RadialDirection::CounterY,
            RadialDirection::ClockwiseZ,
            RadialDirection::CounterZ,
        ]
    );
}

#[test]
fn cross_follows_right_hand_rule() {
    assert_eq!(X.cross(Y), Some(Z));
    assert_eq!(Y.cross(Z), Some(X));
    assert_eq!(Z.cross(X), Some(Y));
    assert_eq!(Y.cross(X), Some(NegZ));
    assert_eq!(NegX.cross(Y), Some(NegZ));
    assert_eq!(NegX.cross(NegY), Some(Z));
    assert_eq!(X.cross(NegX), None);
    assert_eq!(Z.cross(Z), None);
}

#[test]
fn cross_is_antisymmetric_for_all_pairs() {
    for a in ALL {
        for b in ALL {
            match a.cross(b) {
                None => assert!(a.is_parallel_to(b)),
                Some(c) => {
                    assert!(!a.is_parallel_to(b));
                    assert_eq!(b.cross(a), Some(c.opposite()));
                    assert!(!c.is_parallel_to(a));
                    assert!(!c.is_parallel_to(b));
                }
            }
        }
    }
}

#[test]
fn vector_cross_product() {
    let v = Vec3i::new(1, 2, 3).cross(Vec3i::new(4, 5, 6));
    assert_eq!(v, Vec3i::new(-3, 6, -3));
}

#[test]
fn from_vec3i_needs_one_axis() {
    assert_eq!(CartesianDirection::from_vec3i(Vec3i::new(0, -1, 0)), Some(CartesianDirection::NegY));
    assert_eq!(CartesianDirection::from_vec3i(Vec3i::new(5, 0, 0)), Some(CartesianDirection::X));
    assert_eq!(CartesianDirection::from_vec3i(Vec3i::new(0, 0, 0)), None);
    assert_eq!(CartesianDirection::from_vec3i(Vec3i::new(1, 0, 1)), None);
    for d in ALL {
        assert_eq!(CartesianDirection::from_vec3i(d.as_vec3i()), Some(d));
    }
}

#[test]
fn nonzero_component_helpers() {
    assert_eq!(first_nonzero_component(Vec3i::new(0, 0, 0)), None);
    assert_eq!(first_nonzero_component(Vec3i::new(0, 2, 3)), Some(1));
    assert_eq!(nonzero_components(Vec3i::new(0, 2, 3)), vec![1, 2]);
    assert_eq!(nonzero_components(Vec3i::new(7, 0, -3)), vec![0, 2]);
    assert_eq!(nonzero_components(Vec3i::new(0, 0, 0)), Vec::<u32>::new());
}

#[test]
fn diagonals_list_each_pair_once() {
    let diagonals = CartesianDirection::diagonals();
    assert_eq!(diagonals[0], (CartesianDirection::X, CartesianDirection::Y));
    assert_eq!(diagonals[8], (CartesianDirection::Y, CartesianDirection::Z));
    assert_eq!(diagonals[11], (CartesianDirection::NegY, CartesianDirection::NegZ));
    for a in ALL {
        for b in ALL {
            let listed = diagonals.iter().filter(|d| **d == (a, b) || **d == (b, a)).count();
            assert_eq!(listed, if a.is_parallel_to(b) { 0 } else { 1 });
        }
    }
}

#[test]
fn radial_direction_is_normal_cross_axis() {
    assert_eq!(RadialDirection::ClockwiseX.to_cartesian_direction(Y), Some(NegZ));
    assert_eq!(RadialDirection::ClockwiseX.to_cartesian_direction(Z), Some(Y));
    assert_eq!(RadialDirection::CounterX.to_cartesian_direction(Y), Some(Z));
    assert_eq!(RadialDirection::ClockwiseY.to_cartesian_direction(Z), Some(NegX));
    assert_eq!(RadialDirection::ClockwiseZ.to_cartesian_direction(X), Some(NegY));
    assert_eq!(RadialDirection::ClockwiseZ.to_cartesian_direction(NegZ), None);
    for radial in RadialDirection::directions() {
        for normal in ALL {
            assert_eq!(
                radial.to_cartesian_direction(normal),
                normal.cross(radial.rotation_axis())
            );
            assert_eq!(
                radial.opposite().to_cartesian_direction(normal),
                radial.to_cartesian_direction(normal).map(|d| d.opposite())
            );
        }
    }
}

#[test]
fn perpendicular_axis_is_positive() {
    assert_eq!(X.get_perpendicular_axis(NegY), Some(Z));
    assert_eq!(NegZ.get_perpendicular_axis(Y), Some(X));
    assert_eq!(Y.get_perpendicular_axis(NegY), None);
}
