use vstd::prelude::*;

verus! {

/// The Windows materials a surface can ask for.
#[derive(Clone, Copy, Debug, PartialEq, Eq)]
pub enum WindowsMaterial {
    Mica,
    MicaAlt,
    Acrylic,
    AcrylicThin,
    /// A material for which WinUI has neither a backdrop nor an in-app brush.
    Other,
}

/// The system backdrops a WinUI window can carry.
#[derive(Clone, Copy, Debug, PartialEq, Eq)]
pub enum WindowBackdropKind {
    Mica,
    MicaAlt,
    Acrylic,
}

/// The window backdrop for a material. Both acrylic variants use the desktop
/// acrylic backdrop, which is the only one this Windows App SDK offers.
pub fn window_backdrop_kind(material: WindowsMaterial) -> (k: Option<WindowBackdropKind>)
    ensures
        k == match material {
            WindowsMaterial::Mica => Some(WindowBackdropKind::Mica),
            WindowsMaterial::MicaAlt => Some(WindowBackdropKind::MicaAlt),
            WindowsMaterial::Acrylic | WindowsMaterial::AcrylicThin => Some(WindowBackdropKind::Acrylic),
            WindowsMaterial::Other => None,
        },
{
    match material {
        WindowsMaterial::Mica => Some(WindowBackdropKind::Mica),
        WindowsMaterial::MicaAlt => Some(WindowBackdropKind::MicaAlt),
        WindowsMaterial::Acrylic | WindowsMaterial::AcrylicThin => Some(WindowBackdropKind::Acrylic),
        WindowsMaterial::Other => None,
    }
}

/// The theme brush that imitates a material inside a window: the base in-app
/// acrylic fill for Mica and Acrylic, the default one for MicaAlt and
/// AcrylicThin; `material` is `None` for a material without a Windows form.
pub fn in_app_brush_resource(material: Option<WindowsMaterial>) -> (r: Option<&'static str>)
    ensures
        match material {
            Some(WindowsMaterial::Mica) | Some(WindowsMaterial::Acrylic) => r matches Some(s) && s@ == "AcrylicInAppFillColorBaseBrush"@,
            Some(WindowsMaterial::MicaAlt) | Some(WindowsMaterial::AcrylicThin) => r matches Some(s) && s@ == "AcrylicInAppFillColorDefaultBrush"@,
            _ => r is None,
        },
{
    match material {
        Some(WindowsMaterial::Mica) | Some(WindowsMaterial::Acrylic) => Some("AcrylicInAppFillColorBaseBrush"),
        Some(WindowsMaterial::MicaAlt) | Some(WindowsMaterial::AcrylicThin) => Some("AcrylicInAppFillColorDefaultBrush"),
        _ => None,
    }
}

} // verus!
