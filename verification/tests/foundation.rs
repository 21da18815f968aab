use thrustr::foundation::size::{Size as OldSize, WithSize as OldWithSize};
use thrustr::foundation::variant::{Variant as OldVariant, WithVariant as OldWithVariant};
use thrustr::foundation::{Radius, Size, Variant, WithRadius, WithSize, WithVariant};
use thrustr::traits::{Variant as FirstVariant, WithVariant as FirstWithVariant};

#[derive(Debug, Default)]
struct Chip {
    variant: Variant,
    size: Size,
    radius: Radius,
}

impl WithVariant for Chip {
    fn variant(self, variant: Variant) -> Self {
        Chip { variant, ..self }
    }
}

impl WithSize for Chip {
    fn size(self, size: Size) -> Self {
        Chip { size, ..self }
    }
}

impl WithRadius for Chip {
    fn radius(self, radius: Radius) -> Self {
        Chip { radius, ..self }
    }
}

#[test]
fn defaults() {
    assert_eq!(Variant::default(), Variant::Outline);
    assert_eq!(Size::default(), Size::Medium);
    assert_eq!(Radius::default(), Radius::Medium);
}

#[test]
fn builders_set_the_looks() {
    let chip = Chip::default().variant_danger().size_lg().radius_pill();
    assert_eq!(chip.variant, Variant::Danger);
    assert_eq!(chip.size, Size::Large);
    assert_eq!(chip.radius, Radius::Pill);
    let chip = chip.variant_ghost().size_sm().radius_md();
    assert_eq!(chip.variant, Variant::Ghosted);
    assert_eq!(chip.size, Size::Small);
    assert_eq!(chip.radius, Radius::Medium);
}

#[test]
fn older_traits_set_their_looks() {
    let o = Old(OldSize::Medium, OldVariant::Primary).size_lg().variant_destructive();
    assert_eq!(o.0, OldSize::Large);
    assert_eq!(o.1, OldVariant::Destructive);

    assert_eq!(First(FirstVariant::Primary).variant_ghost().0, FirstVariant::Ghosted);
}

struct Old(OldSize, OldVariant);

impl OldWithSize for Old {
    fn size(self, size: OldSize) -> Self {
        Old(size, self.1)
    }
}

impl OldWithVariant for Old {
    fn variant(self, variant: OldVariant) -> Self {
        Old(self.0, variant)
    }
}

struct First(FirstVariant);

impl FirstWithVariant for First {
    fn variant(self, variant: FirstVariant) -> Self {
        First(variant)
    }
}
