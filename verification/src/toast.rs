//! The notification kinds the UI shows and their fixed markup pieces.

use vstd::prelude::*;

verus! {

/// Kind of a user-facing notification.
pub enum ToastType {
    Success,
    Warning,
    Error,
}

/// The inline SVG icon shown beside a toast of this kind.
pub fn get_svg_for_toast(toast_type: &ToastType) -> (r: &'static str)
    ensures
        match toast_type {
            ToastType::Success => r@
                == r#"<svg xmlns="http://www.w3.org/2000/svg" class="stroke-current flex-shrink-0 h-6 w-6" fill="none" viewBox="0 0 24 24"><path stroke-linecap="round" stroke-linejoin="round" stroke-width="2" d="M9 12l2 2 4-4m6 2a9 9 0 11-18 0 9 9 0 0118 0z" /></svg>"#@,
            ToastType::Warning => r@
                == r#"<svg xmlns="http://www.w3.org/2000/svg" class="stroke-current flex-shrink-0 h-6 w-6" fill="none" viewBox="0 0 24 24"><path stroke-linecap="round" stroke-linejoin="round" stroke-width="2" d="M12 9v2m0 4h.01m-6.938 4h13.856c1.54 0 2.502-1.667 1.732-3L13.732 4c-.77-1.333-2.694-1.333-3.464 0L3.34 16c-.77 1.333.192 3 1.732 3z" /></svg>"#@,
            ToastType::Error => r@
                == r#"<svg xmlns="http://www.w3.org/2000/svg" class="stroke-current flex-shrink-0 h-6 w-6" fill="none" viewBox="0 0 24 24"><path stroke-linecap="round" stroke-linejoin="round" stroke-width="2" d="M10 14l2-2m0 0l2-2m-2 2l-2-2m2 2l2 2m7-2a9 9 0 11-18 0 9 9 0 0118 0z" /></svg>"#@,
        },
{
    match toast_type {
        ToastType::Success => {
            r#"<svg xmlns="http://www.w3.org/2000/svg" class="stroke-current flex-shrink-0 h-6 w-6" fill="none" viewBox="0 0 24 24"><path stroke-linecap="round" stroke-linejoin="round" stroke-width="2" d="M9 12l2 2 4-4m6 2a9 9 0 11-18 0 9 9 0 0118 0z" /></svg>"#
        },
        ToastType::Warning => {
            r#"<svg xmlns="http://www.w3.org/2000/svg" class="stroke-current flex-shrink-0 h-6 w-6" fill="none" viewBox="0 0 24 24"><path stroke-linecap="round" stroke-linejoin="round" stroke-width="2" d="M12 9v2m0 4h.01m-6.938 4h13.856c1.54 0 2.502-1.667 1.732-3L13.732 4c-.77-1.333-2.694-1.333-3.464 0L3.34 16c-.77 1.333.192 3 1.732 3z" /></svg>"#
        },
        ToastType::Error => {
            r#"<svg xmlns="http://www.w3.org/2000/svg" class="stroke-current flex-shrink-0 h-6 w-6" fill="none" viewBox="0 0 24 24"><path stroke-linecap="round" stroke-linejoin="round" stroke-width="2" d="M10 14l2-2m0 0l2-2m-2 2l-2-2m2 2l2 2m7-2a9 9 0 11-18 0 9 9 0 0118 0z" /></svg>"#
        },
    }
}

/// The alert class the toast container uses for this kind.
pub fn toast_alert_class(toast_type: &ToastType) -> (r: &'static str)
    ensures
        match toast_type {
            ToastType::Success => r@ == "alert-success"@,
            ToastType::Warning => r@ == "alert-warning"@,
            ToastType::Error => r@ == "alert-error"@,
        },
{
    match toast_type {
        ToastType::Success => "alert-success",
        ToastType::Warning => "alert-warning",
        ToastType::Error => "alert-error",
    }
}

} // verus!
